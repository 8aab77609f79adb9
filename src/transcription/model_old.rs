//! Where whisper model files live.
use vstd::prelude::*;
use vstd::string::StringExecFns;

verus! {

/// Directory of the model files, relative to the working directory.
pub const MODEL_PATH: &'static str = "models/";

/// Extension of a model file.
pub const MODEL_EXTENSION: &'static str = ".bin";

/// Relative path of the file of the named model: the model directory, the
/// name, and the extension, one after another.
pub fn get_model_path(model_name: &str) -> (r: String)
    ensures
        r@ == MODEL_PATH@ + model_name@ + MODEL_EXTENSION@,
{
    let mut path = MODEL_PATH.to_owned();
    path.append(model_name);
    path.append(MODEL_EXTENSION);
    path
}

} // verus!
