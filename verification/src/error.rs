//! The error taxonomy of the pipeline: encoding errors, shape errors and
//! configuration errors are fail-fast but typed and catchable; only a failed
//! cryptographic check is a normal "reject" outcome, and that one is reported
//! as a boolean by the caller of the proving system, never as an error here.

use vstd::prelude::*;
use crate::config::GadgetType;

verus! {

#[derive(Clone, Copy, PartialEq, Eq, Structural, Debug)]
pub enum CircuitError {
    /// A hex string with an odd number of digits.
    OddHexLength,
    /// A character that is not a hex digit, at the given byte index.
    BadHexCharacter { index: usize },
    /// A public value string that is not a representable decimal integer.
    MalformedFieldElement,
    /// A quantized value outside the declared range `[min_val, max_val)`.
    ValueOutOfRange,
    /// A tensor shape differing from the shape a layer declared for it.
    ShapeMismatch,
    /// A tensor whose declared shape disagrees with its element count.
    SizeMismatch,
    /// Two tensors declared under one id.
    DuplicateTensorId,
    /// A tensor id read before any tensor was stored under it.
    MissingTensor,
    /// A layer type tag that names no known layer kind.
    UnknownLayerKind,
    /// A gadget kind that cannot be configured.
    UnsupportedGadget { gadget: GadgetType },
    /// A gadget kind in use that has no lookup-table strategy.
    NoLookupStrategy { gadget: GadgetType },
    /// A row parameter outside the supported range.
    UnsupportedRowParameter,
    /// A layer kind whose arithmetic kernel lives outside this crate.
    UnimplementedKernel,
    /// A model description field outside its admissible range.
    BadDescription,
}

} // verus!
