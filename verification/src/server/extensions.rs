//! Protocol extensions.

pub mod render;
pub mod shape;
pub mod xinput2;
pub mod xkb;
pub mod xtest;

use vstd::prelude::*;

verus! {

/// An extension the server announces.
#[derive(Debug, Clone, Copy)]
pub struct ExtensionInfo {
    pub name: &'static str,
    pub major_opcode: u8,
    pub first_event: u8,
    pub first_error: u8,
}

/// The name and numbers of an extension.
pub struct ExtensionModel {
    pub name: Seq<char>,
    pub major_opcode: u8,
    pub first_event: u8,
    pub first_error: u8,
}

impl View for ExtensionInfo {
    type V = ExtensionModel;

    open spec fn view(&self) -> ExtensionModel {
        ExtensionModel {
            name: self.name@,
            major_opcode: self.major_opcode,
            first_event: self.first_event,
            first_error: self.first_error,
        }
    }
}

/// The models of a list of extensions.
pub open spec fn extension_models(s: Seq<ExtensionInfo>) -> Seq<ExtensionModel> {
    Seq::new(s.len(), |i: int| s[i]@)
}

/// The extensions the server announces.
pub open spec fn announced() -> Seq<ExtensionModel> {
    seq![
        ExtensionModel { name: "BIG-REQUESTS"@, major_opcode: 133, first_event: 0, first_error: 0 },
        ExtensionModel { name: "SHAPE"@, major_opcode: 134, first_event: 76, first_error: 0 },
        ExtensionModel { name: "XTEST"@, major_opcode: 132, first_event: 0, first_error: 0 },
        ExtensionModel { name: "RENDER"@, major_opcode: 139, first_event: 0, first_error: 142 },
    ]
}

/// The extensions the server announces.
pub fn supported_extensions() -> (r: Vec<ExtensionInfo>)
    ensures
        extension_models(r@) == announced(),
{
    let mut r: Vec<ExtensionInfo> = Vec::new();
    r.push(
        ExtensionInfo { name: "BIG-REQUESTS", major_opcode: 133, first_event: 0, first_error: 0 },
    );
    r.push(ExtensionInfo { name: "SHAPE", major_opcode: 134, first_event: 76, first_error: 0 });
    r.push(ExtensionInfo { name: "XTEST", major_opcode: 132, first_event: 0, first_error: 0 });
    r.push(ExtensionInfo { name: "RENDER", major_opcode: 139, first_event: 0, first_error: 142 });
    assert(extension_models(r@) =~= announced());
    r
}

} // verus!
