//! What holds of a scene as a whole: its up axis, its unit, and the format of its root layer.
use crate::error::{Error, ErrorView};
use crate::num::Double;
use crate::path::root_path;
use crate::stage::{Stage, StageView};
use crate::table::FieldKey;
use crate::text;
use crate::value::Value;
use vstd::prelude::*;

verus! {

/// Which axis of a scene points up.
#[derive(Clone, Copy, Debug, PartialEq, Eq, Structural)]
pub enum UpAxis {
    Y,
    Z,
}

/// What the name of a layer says of its format.
#[derive(Clone, Copy, Debug, PartialEq, Eq, Structural)]
pub enum LayerProbe {
    /// The layer is binary.
    Binary,
    /// The layer is not binary.
    NotBinary,
    /// The name leaves it open: the first bytes of the file have to tell.
    ReadHead,
}

/// The axis that a text names.
pub open spec fn axis_named(name: Seq<char>) -> Option<UpAxis> {
    if name == "Y"@ {
        Some(UpAxis::Y)
    } else if name == "Z"@ {
        Some(UpAxis::Z)
    } else {
        None
    }
}

/// The axis that a value names. Only a token or a string names one.
pub open spec fn axis_of(value: Value) -> Option<UpAxis> {
    match value {
        Value::Token(name) => axis_named(name@),
        Value::String(name) => axis_named(name@),
        _ => None,
    }
}

/// The bytes that a binary layer starts with.
pub open spec fn magic() -> Seq<u8> {
    seq![0x50u8, 0x58u8, 0x52u8, 0x2du8, 0x55u8, 0x53u8, 0x44u8, 0x43u8]
}

/// What the name of a layer says of its format, whatever the case of its letters.
pub open spec fn probe(identifier: Seq<char>) -> LayerProbe {
    let name = text::ascii_lowercase(identifier);
    if text::is_suffix(name, ".usdc"@) {
        LayerProbe::Binary
    } else if text::is_suffix(name, ".usd"@) {
        LayerProbe::ReadHead
    } else {
        LayerProbe::NotBinary
    }
}

impl StageView {
    /// What a field of the root answers.
    pub open spec fn metadata(self, key: FieldKey) -> Result<Option<Value>, ErrorView> {
        self.field(seq!['/'], key)
    }

    /// Which axis points up, where that is known.
    pub open spec fn up_axis(self) -> Option<UpAxis> {
        match self.metadata(FieldKey::UpAxis) {
            Ok(Some(v)) => axis_of(v),
            _ => None,
        }
    }

    /// How many meters a unit has, where that is known.
    pub open spec fn meters_per_unit(self) -> Option<Double> {
        match self.metadata(FieldKey::MetersPerUnit) {
            Ok(Some(Value::Double(v))) => Some(v),
            Ok(Some(Value::Float(v))) => Some(v.widened()),
            _ => None,
        }
    }

    /// Whether the root layer is binary, given the first bytes of its file, if they could be
    /// read.
    pub open spec fn root_layer_is_binary(self, head: Option<[u8; 8]>) -> bool {
        match probe(self.identifier) {
            LayerProbe::Binary => true,
            LayerProbe::NotBinary => false,
            LayerProbe::ReadHead => head matches Some(h) && h@ == magic(),
        }
    }
}

/// Reads the axis that a text names.
fn read_axis(name: &str) -> (r: Option<UpAxis>)
    ensures
        r == axis_named(name@),
{
    if text::same(name, "Y") {
        Some(UpAxis::Y)
    } else if text::same(name, "Z") {
        Some(UpAxis::Z)
    } else {
        None
    }
}

/// Whether bytes are those that a binary layer starts with.
fn is_magic(h: [u8; 8]) -> (r: bool)
    ensures
        r == (h@ == magic()),
{
    let r = h[0] == 0x50 && h[1] == 0x58 && h[2] == 0x52 && h[3] == 0x2d && h[4] == 0x55 && h[5]
        == 0x53 && h[6] == 0x44 && h[7] == 0x43;
    proof {
        if r {
            assert(h@ =~= magic());
        } else {
            assert(!(h@[0] == magic()[0] && h@[1] == magic()[1] && h@[2] == magic()[2] && h@[3]
                == magic()[3] && h@[4] == magic()[4] && h@[5] == magic()[5] && h@[6] == magic()[6]
                && h@[7] == magic()[7]));
        }
    }
    r
}

impl Stage {
    /// What a field of the root answers.
    pub fn stage_metadata(&self, key: FieldKey) -> (r: Result<Option<&Value>, Error>)
        ensures
            match r {
                Ok(Some(v)) => self@.metadata(key) == Ok::<Option<Value>, ErrorView>(Some(*v)),
                Ok(None) => self@.metadata(key) == Ok::<Option<Value>, ErrorView>(None),
                Err(e) => self@.metadata(key) == Err::<Option<Value>, ErrorView>(e@),
            },
    {
        self.field(&root_path(), key)
    }

    /// Which axis points up, where the scene says so.
    pub fn up_axis(&self) -> (r: Option<UpAxis>)
        ensures
            r == self@.up_axis(),
    {
        match self.stage_metadata(FieldKey::UpAxis) {
            Ok(Some(Value::Token(name))) => read_axis(name.as_str()),
            Ok(Some(Value::String(name))) => read_axis(name.as_str()),
            _ => None,
        }
    }

    /// How many meters a unit has, where the scene says so.
    pub fn meters_per_unit(&self) -> (r: Option<Double>)
        ensures
            r == self@.meters_per_unit(),
    {
        match self.stage_metadata(FieldKey::MetersPerUnit) {
            Ok(Some(Value::Double(v))) => Some(*v),
            Ok(Some(Value::Float(v))) => Some(v.to_double()),
            _ => None,
        }
    }

    /// What the name of the root layer says of its format.
    pub fn root_layer_probe(&self) -> (r: LayerProbe)
        ensures
            r == probe(self@.identifier),
    {
        let name = self.root_layer_identifier();
        if text::lowercase_ends_with(name, ".usdc") {
            LayerProbe::Binary
        } else if text::lowercase_ends_with(name, ".usd") {
            LayerProbe::ReadHead
        } else {
            LayerProbe::NotBinary
        }
    }

    /// Whether the root layer is binary. `head` holds the first eight bytes of its file, if they
    /// could be read; they matter only where [`Stage::root_layer_probe`] asks for them.
    pub fn root_layer_is_binary(&self, head: Option<[u8; 8]>) -> (r: bool)
        ensures
            r == self@.root_layer_is_binary(head),
    {
        match self.root_layer_probe() {
            LayerProbe::Binary => true,
            LayerProbe::NotBinary => false,
            LayerProbe::ReadHead => match head {
                Some(h) => is_magic(h),
                None => false,
            },
        }
    }
}

} // verus!
