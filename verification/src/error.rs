//! The errors of the library and their messages.

use vstd::prelude::*;
use vstd::string::*;

verus! {

/// Everything that can go wrong inside the framework.
///
/// Shape and dimension errors report malformed tensors, `RuntimeError`
/// reports a layer used out of protocol (for instance `backward` before
/// `forward`), and the remaining variants belong to devices, configuration
/// and persistence.
#[derive(Debug, Clone, PartialEq, Eq)]
pub enum BellandeError {
    NoGradients,
    InvalidShape(String),
    DimensionMismatch,
    InvalidBackward,
    DeviceNotAvailable,
    InvalidDevice,
    SerializationError,
    InvalidDataType,
    InvalidInputs,
    CUDAError(String),
    IOError(String),
    RuntimeError(String),
    ImageError(String),
    InvalidOperation(String),
    InvalidConfiguration(String),
    NotImplemented(String),
    EarlyStopping(String),
    ShapeMismatch(String),
    InvalidParameter(String),
}

impl BellandeError {
    /// The fixed text that introduces the message of each variant.
    pub open spec fn prefix(self) -> Seq<char> {
        match self {
            BellandeError::NoGradients => "Gradients not enabled for this tensor"@,
            BellandeError::InvalidShape(_) => "Invalid tensor shape: "@,
            BellandeError::DimensionMismatch => "Tensor dimensions do not match"@,
            BellandeError::InvalidBackward => "Invalid backward call"@,
            BellandeError::DeviceNotAvailable => "Requested device not available"@,
            BellandeError::InvalidDevice => "Invalid device specification"@,
            BellandeError::SerializationError => "Serialization error"@,
            BellandeError::InvalidDataType => "Invalid data type"@,
            BellandeError::InvalidInputs => "Invalid number of inputs"@,
            BellandeError::CUDAError(_) => "CUDA error: "@,
            BellandeError::IOError(_) => "IO error: "@,
            BellandeError::RuntimeError(_) => "Runtime error: "@,
            BellandeError::ImageError(_) => "Image error: "@,
            BellandeError::InvalidOperation(_) => "Invalid operation: "@,
            BellandeError::InvalidConfiguration(_) => "Invalid configuration: "@,
            BellandeError::NotImplemented(_) => "Not implemented: "@,
            BellandeError::EarlyStopping(_) => "Early stopping: "@,
            BellandeError::ShapeMismatch(_) => "Shape mismatch: "@,
            BellandeError::InvalidParameter(_) => "Invalid parameter: "@,
        }
    }

    /// The detail carried by the variant, empty where it carries none.
    pub open spec fn detail(self) -> Seq<char> {
        match self {
            BellandeError::InvalidShape(m) => m@,
            BellandeError::CUDAError(m) => m@,
            BellandeError::IOError(m) => m@,
            BellandeError::RuntimeError(m) => m@,
            BellandeError::ImageError(m) => m@,
            BellandeError::InvalidOperation(m) => m@,
            BellandeError::InvalidConfiguration(m) => m@,
            BellandeError::NotImplemented(m) => m@,
            BellandeError::EarlyStopping(m) => m@,
            BellandeError::ShapeMismatch(m) => m@,
            BellandeError::InvalidParameter(m) => m@,
            _ => Seq::empty(),
        }
    }

    /// The human-readable message: the variant's prefix followed by its detail.
    pub fn message(&self) -> (r: String)
        ensures
            r@ == self.prefix() + self.detail(),
    {
        let r = match self {
            BellandeError::NoGradients => String::from_str("Gradients not enabled for this tensor"),
            BellandeError::InvalidShape(m) => String::from_str("Invalid tensor shape: ").concat(
                m.as_str(),
            ),
            BellandeError::DimensionMismatch => String::from_str("Tensor dimensions do not match"),
            BellandeError::InvalidBackward => String::from_str("Invalid backward call"),
            BellandeError::DeviceNotAvailable => String::from_str("Requested device not available"),
            BellandeError::InvalidDevice => String::from_str("Invalid device specification"),
            BellandeError::SerializationError => String::from_str("Serialization error"),
            BellandeError::InvalidDataType => String::from_str("Invalid data type"),
            BellandeError::InvalidInputs => String::from_str("Invalid number of inputs"),
            BellandeError::CUDAError(m) => String::from_str("CUDA error: ").concat(m.as_str()),
            BellandeError::IOError(m) => String::from_str("IO error: ").concat(m.as_str()),
            BellandeError::RuntimeError(m) => String::from_str("Runtime error: ").concat(
                m.as_str(),
            ),
            BellandeError::ImageError(m) => String::from_str("Image error: ").concat(m.as_str()),
            BellandeError::InvalidOperation(m) => String::from_str("Invalid operation: ").concat(
                m.as_str(),
            ),
            BellandeError::InvalidConfiguration(m) => String::from_str(
                "Invalid configuration: ",
            ).concat(m.as_str()),
            BellandeError::NotImplemented(m) => String::from_str("Not implemented: ").concat(
                m.as_str(),
            ),
            BellandeError::EarlyStopping(m) => String::from_str("Early stopping: ").concat(
                m.as_str(),
            ),
            BellandeError::ShapeMismatch(m) => String::from_str("Shape mismatch: ").concat(
                m.as_str(),
            ),
            BellandeError::InvalidParameter(m) => String::from_str("Invalid parameter: ").concat(
                m.as_str(),
            ),
        };
        assert(r@ =~= self.prefix() + self.detail());
        r
    }
}

/// The error every layer reports when `backward` is called without a cached
/// `forward`.
pub open spec fn not_called() -> Seq<char> {
    "Forward pass not called"@
}

pub fn forward_not_called() -> (e: BellandeError)
    ensures
        e matches BellandeError::RuntimeError(m) && m@ == not_called(),
{
    BellandeError::RuntimeError(String::from_str("Forward pass not called"))
}

} // verus!
