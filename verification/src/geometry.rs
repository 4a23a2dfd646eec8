//! Output size of a sliding window (convolution or pooling) along one axis.

use vstd::prelude::*;

verus! {

/// The window fits at least once on the padded axis.
pub open spec fn window_fits(
    kernel_size: int,
    stride: int,
    padding: int,
    dilation: int,
    size_in: int,
) -> bool {
    &&& kernel_size >= 1
    &&& stride >= 1
    &&& padding >= 0
    &&& dilation >= 0
    &&& size_in >= 0
    &&& dilation * (kernel_size - 1) + 1 <= size_in + 2 * padding
}

/// Number of window positions along an axis of `size_in` cells, padded by
/// `padding` cells on both ends, for a window of `kernel_size` taps spaced
/// `dilation` apart that moves `stride` cells at a time.
pub open spec fn window_output_size(
    kernel_size: int,
    stride: int,
    padding: int,
    dilation: int,
    size_in: int,
) -> int {
    (size_in + 2 * padding - dilation * (kernel_size - 1) - 1) / stride + 1
}

/// `burn::tensor::ops::conv::calculate_conv_output_size`, the function by
/// which the tensor runtime sizes the output of a convolution. Its body is the
/// single expression `(size_in + 2 * padding - dilation * (kernel_size - 1) - 1)
/// / stride + 1` in machine arithmetic; on the inputs admitted here no step of
/// it overflows, underflows or divides by zero, so it equals the same
/// expression over the integers.
pub assume_specification[ burn::tensor::ops::conv::calculate_conv_output_size ](
    kernel_size: usize,
    stride: usize,
    padding: usize,
    dilation: usize,
    size_in: usize,
) -> (size_out: usize)
    requires
        window_fits(
            kernel_size as int,
            stride as int,
            padding as int,
            dilation as int,
            size_in as int,
        ),
        size_in + 2 * padding <= usize::MAX,
    ensures
        size_out == window_output_size(
            kernel_size as int,
            stride as int,
            padding as int,
            dilation as int,
            size_in as int,
        ),
;

/// Output size of an unpadded, undilated window: `Some` exactly when the
/// window fits on the axis.
pub fn valid_output_size(kernel_size: usize, stride: usize, size_in: usize) -> (r: Option<usize>)
    ensures
        r.is_some() <==> window_fits(kernel_size as int, stride as int, 0, 1, size_in as int),
        r.is_some() ==> r.unwrap() == window_output_size(
            kernel_size as int,
            stride as int,
            0,
            1,
            size_in as int,
        ),
{
    if kernel_size >= 1 && stride >= 1 && kernel_size <= size_in {
        Some(burn::tensor::ops::conv::calculate_conv_output_size(kernel_size, stride, 0, 1, size_in))
    } else {
        None
    }
}

} // verus!
