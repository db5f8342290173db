//! The desktop program's converter. Its FFmpeg libraries are linked only
//! into static release builds; otherwise it checks the request and the
//! settings and then reports that conversion is unavailable.
use vstd::prelude::*;

use crate::config::Config;
use crate::converter::{paths_equal, settings_for, settings_spec, ConvertError};
use crate::text::lower;

verus! {

/// Converts with FFmpeg libraries linked statically into the desktop program.
#[derive(Debug, Default, Clone, Copy)]
pub struct GuiLibAvConverter;

impl GuiLibAvConverter {
    /// Converts `input` to `output` for the upload: a canceled request stops
    /// at once, the output may not be the input (the same text ignoring
    /// ASCII case), the configured codec must be known; without the linked
    /// libraries a valid request ends in `LibAvUnavailable`.
    pub fn convert(
        &self,
        canceled: bool,
        config: &Config,
        input: &str,
        output: &str,
        source_rate: i32,
    ) -> (r: Result<(), ConvertError>)
        ensures
            canceled ==> (r matches Err(ConvertError::Canceled)),
            !canceled && lower(input@) == lower(output@) ==> (r matches Err(
                ConvertError::SamePath,
            )),
            !canceled && lower(input@) != lower(output@) && settings_spec(
                *config,
                source_rate as int,
            ) is None ==> (r matches Err(ConvertError::UnsupportedCodec(c)) && c@
                == config.codecs@),
            !canceled && lower(input@) != lower(output@) && settings_spec(
                *config,
                source_rate as int,
            ) is Some ==> (r matches Err(ConvertError::LibAvUnavailable)),
    {
        if canceled {
            return Err(ConvertError::Canceled);
        }
        if paths_equal(input, output) {
            return Err(ConvertError::SamePath);
        }
        match settings_for(config, source_rate) {
            Err(e) => Err(e),
            Ok(_) => Err(ConvertError::LibAvUnavailable),
        }
    }
}

} // verus!
