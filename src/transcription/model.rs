//! The speech-to-text models that can be chosen.
use vstd::prelude::*;

verus! {

/// A whisper model size and variant.
#[derive(Clone, Copy, Debug, PartialEq, Eq)]
pub enum TranscriptionModel {
    Tiny,
    QuantizedTiny,
    TinyEn,
    QuantizedTinyEn,
    Base,
    BaseEn,
    Small,
    SmallEn,
    Medium,
    MediumEn,
    QuantizedDistilMediumEn,
    Large,
    LargeV2,
    DistilMediumEn,
    DistilLargeV2,
    DistilLargeV3,
    QuantizedDistilLargeV3,
    QuantizedLargeV3Turbo,
}

/// Every model, in the order they are offered.
pub open spec fn all_models() -> Seq<TranscriptionModel> {
    seq![
        TranscriptionModel::Tiny,
        TranscriptionModel::QuantizedTiny,
        TranscriptionModel::TinyEn,
        TranscriptionModel::QuantizedTinyEn,
        TranscriptionModel::Base,
        TranscriptionModel::BaseEn,
        TranscriptionModel::Small,
        TranscriptionModel::SmallEn,
        TranscriptionModel::Medium,
        TranscriptionModel::MediumEn,
        TranscriptionModel::QuantizedDistilMediumEn,
        TranscriptionModel::Large,
        TranscriptionModel::LargeV2,
        TranscriptionModel::DistilMediumEn,
        TranscriptionModel::DistilLargeV2,
        TranscriptionModel::DistilLargeV3,
        TranscriptionModel::QuantizedDistilLargeV3,
        TranscriptionModel::QuantizedLargeV3Turbo,
    ]
}

/// The models offered for transcription.
pub fn list_available_transcription_models() -> (r: Vec<TranscriptionModel>)
    ensures
        r@ == all_models(),
{
    let r = vec![
        TranscriptionModel::Tiny,
        TranscriptionModel::QuantizedTiny,
        TranscriptionModel::TinyEn,
        TranscriptionModel::QuantizedTinyEn,
        TranscriptionModel::Base,
        TranscriptionModel::BaseEn,
        TranscriptionModel::Small,
        TranscriptionModel::SmallEn,
        TranscriptionModel::Medium,
        TranscriptionModel::MediumEn,
        TranscriptionModel::QuantizedDistilMediumEn,
        TranscriptionModel::Large,
        TranscriptionModel::LargeV2,
        TranscriptionModel::DistilMediumEn,
        TranscriptionModel::DistilLargeV2,
        TranscriptionModel::DistilLargeV3,
        TranscriptionModel::QuantizedDistilLargeV3,
        TranscriptionModel::QuantizedLargeV3Turbo,
    ];
    assert(r@ =~= all_models());
    r
}

} // verus!
