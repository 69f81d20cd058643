//! The uniform record shape for one device setting, and the tagged
//! envelope that carries it over the wire.

use vstd::prelude::*;

verus! {

/// Mathematical model of a [`CameraConfig`]: the same fields over
/// sequences of characters.
pub ghost struct ConfigModel {
    pub id: Seq<char>,
    pub value: Seq<char>,
    pub choices: Seq<Seq<char>>,
    pub readonly: bool,
}

/// One device setting in uniform shape: a stable identifier, its
/// current value (already stringified per setting kind), the permitted
/// values where the setting is enumerable, and a read-only marker.
#[derive(Clone, Debug, PartialEq)]
pub struct CameraConfig {
    pub id: String,
    pub value: String,
    pub choices: Vec<String>,
    pub readonly: bool,
}

impl View for CameraConfig {
    type V = ConfigModel;

    open spec fn view(&self) -> ConfigModel {
        ConfigModel {
            id: self.id@,
            value: self.value@,
            choices: self.choices.deep_view(),
            readonly: self.readonly,
        }
    }
}

/// Mathematical model of an [`AstroData`] envelope.
pub ghost enum EnvelopeModel {
    CameraConfig(ConfigModel),
}

/// The tagged envelope transmitted over the wire. It has exactly one
/// variant today; the tag byte layout leaves room for future record
/// kinds, and a decoder meeting this crate's contracts rejects an
/// unknown tag instead of fabricating a record.
#[derive(Clone, Debug, PartialEq)]
pub enum AstroData {
    CameraConfig(CameraConfig),
}

impl View for AstroData {
    type V = EnvelopeModel;

    open spec fn view(&self) -> EnvelopeModel {
        match self {
            AstroData::CameraConfig(c) => EnvelopeModel::CameraConfig(c@),
        }
    }
}

} // verus!
