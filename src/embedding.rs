use vstd::prelude::*;

verus! {

/// The operating systems that name the inference library differently.
#[derive(Debug, Clone, Copy, PartialEq, Eq, Structural)]
pub enum TargetOs {
    Windows,
    MacOs,
    Other,
}

/// The file name of the native inference library on `os`.
pub fn ort_lib_name(os: TargetOs) -> (r: &'static str)
    ensures
        r@ == match os {
            TargetOs::Windows => "onnxruntime.dll"@,
            TargetOs::MacOs => "libonnxruntime.dylib"@,
            TargetOs::Other => "libonnxruntime.so"@,
        },
{
    match os {
        TargetOs::Windows => "onnxruntime.dll",
        TargetOs::MacOs => "libonnxruntime.dylib",
        TargetOs::Other => "libonnxruntime.so",
    }
}

} // verus!
