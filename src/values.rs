use vstd::prelude::*;

verus! {

/// The tag of the null value.
pub const TAG_NULL: u8 = 0x00;

/// The tag of the world value.
pub const TAG_WORLD: u8 = 0x0E;

/// The id of the world singleton, which stands for the global variables.
pub const WORLD_ID: u32 = 1;

/// A VM value as the VM stores it: a type tag and an id.
#[derive(Clone, Copy, Debug, PartialEq, Eq, Structural)]
pub struct RawValue {
    pub tag: u8,
    pub data: u32,
}

impl RawValue {
    pub open spec fn is_globals(self) -> bool {
        self.tag == TAG_WORLD && self.data == WORLD_ID
    }
}

/// What the debugger reads of a VM value to display it.
#[derive(Debug)]
pub struct ValueInfo {
    pub raw: RawValue,
    /// For a list-like value, its length, or why it could not be read.
    pub list_len: Option<Result<u32, String>>,
    /// Whether the value exposes a fields collection.
    pub has_vars: bool,
    /// The value's own string conversion, or why it failed.
    pub text: Result<String, String>,
    /// The raw tag/id rendering of the value.
    pub raw_text: String,
}

/// Where an object's fields are read from.
#[derive(Clone, Copy, Debug, PartialEq, Eq, Structural)]
pub enum FieldsSource {
    /// The global variables, which stand in for the world singleton's fields.
    GlobalVars,
    /// The value's own `vars` list.
    VarsOf(RawValue),
}

/// Where the fields of `v` come from.
pub open spec fn fields_source_spec(v: RawValue) -> FieldsSource {
    if v.is_globals() {
        FieldsSource::GlobalVars
    } else {
        FieldsSource::VarsOf(v)
    }
}

pub fn fields_source(v: RawValue) -> (r: FieldsSource)
    ensures
        r == fields_source_spec(v),
{
    if v.tag == TAG_WORLD && v.data == WORLD_ID {
        FieldsSource::GlobalVars
    } else {
        FieldsSource::VarsOf(v)
    }
}

/// One field of an object, read from the VM.
#[derive(Debug)]
pub struct Field {
    pub name: String,
    pub value: ValueInfo,
}

/// One element of a list, with its associated value where the lookup succeeded.
#[derive(Debug)]
pub struct ListEntry {
    pub key: ValueInfo,
    pub assoc: Option<ValueInfo>,
}

/// A named argument of a call, or an unnamed one.
#[derive(Debug)]
pub struct Arg {
    pub name: Option<String>,
    pub value: ValueInfo,
}

#[derive(Debug)]
pub struct Local {
    pub name: String,
    pub value: ValueInfo,
}

} // verus!
