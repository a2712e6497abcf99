//! The record that the PROJECT stream of a VBA project holds.
//!
//! The stream is text, one field per line, each line ended by CR LF or LF CR:
//! the project id, its items, optional help file and executable name, its
//! name, help context id, optional description and compatibility version,
//! the three protected fields, the host extender section and an optional
//! workspace section. A stream is read whole into a [`Project`], or not at
//! all.
use vstd::prelude::*;
use vstd::string::StringSliceAdditionalSpecFns;
use vstd::slice::slice_to_vec;
use crate::text::lossy_utf8;
use crate::error::ProjectStructure;
use crate::data_encryption::decrypted;
use crate::types::{
    agrees, guid, hexdigits, int_32, new_line, path, quoted_characters, skip, spec_tag, tag, tag_byte,
    ErrorKind, Outcome, ParseError,
};

pub mod fields;
pub mod records;

pub use fields::{Password, ProtectionState, Visibility};
use fields::{
    decode_password, decode_protection_state, decode_visibility, password_outcome, password_value,
    protection_outcome, protection_value, visibility_outcome, visibility_value, PasswordModel,
};
use records::{
    extenders_view, host_extenders, items, items_view, spec_host_extenders, spec_items,
    spec_workspace, windows_view, workspace, HostExtenderModel, HostExtenderRef, Item, ItemModel,
    WindowRecord, WindowRecordModel,
};

verus! {

/// The longest project name.
pub const MAX_NAME: usize = 128;

/// The longest project description.
pub const MAX_DESCRIPTION: usize = 2000;

/// The value that an optional rule gives: what it read, or nothing and the
/// input untouched.
pub open spec fn optional<V>(s: Seq<u8>, o: Outcome<V>) -> (Seq<u8>, Option<V>) {
    match o {
        Ok((r, v)) => (r, Some(v)),
        Err(_) => (s, None),
    }
}

/// `ID="`, a GUID, `"` and a line break.
pub open spec fn spec_id(s: Seq<u8>) -> Outcome<u128> {
    match spec_tag(s, "ID=\"".spec_bytes()) {
        Err(e) => Err(e),
        Ok((r1, _)) => match guid::spec_parse(r1) {
            Err(e) => Err(e),
            Ok((r2, g)) => match spec_tag(r2, seq![0x22u8]) {
                Err(e) => Err(e),
                Ok((r3, _)) => match new_line::spec_parse(r3) {
                    Err(e) => Err(e),
                    Ok((r4, _)) => Ok((r4, g)),
                },
            },
        },
    }
}

/// A fixed text, a quoted string of `min` to `max` characters and a line
/// break.
pub open spec fn spec_text_line(s: Seq<u8>, t: Seq<u8>, min: int, max: int) -> Outcome<Seq<char>> {
    match spec_tag(s, t) {
        Err(e) => Err(e),
        Ok((r1, _)) => match quoted_characters::spec_parse(r1, min, max) {
            Err(e) => Err(e),
            Ok((r2, v)) => match new_line::spec_parse(r2) {
                Err(e) => Err(e),
                Ok((r3, _)) => Ok((r3, v)),
            },
        },
    }
}

/// The project name line holds one to 128 characters, each `"` among them
/// doubled: the line, ended by CR LF or LF CR, is read exactly when their
/// count is in that range, and the name is those characters.
pub proof fn lemma_name_line(v: Seq<u8>, rest: Seq<u8>)
    requires
        quoted_characters::quotable(v),
        rest.len() >= 2,
        (rest[0] == 0x0d && rest[1] == 0x0a) || (rest[0] == 0x0a && rest[1] == 0x0d),
    ensures
        spec_text_line(
            "Name=".spec_bytes() + (seq![0x22u8] + quoted_characters::quoted_form(v) + seq![0x22u8]
                + rest),
            "Name=".spec_bytes(),
            1,
            MAX_NAME as int,
        ) is Ok <==> 1 <= v.len() <= MAX_NAME,
        1 <= v.len() <= MAX_NAME ==> spec_text_line(
            "Name=".spec_bytes() + (seq![0x22u8] + quoted_characters::quoted_form(v) + seq![0x22u8]
                + rest),
            "Name=".spec_bytes(),
            1,
            MAX_NAME as int,
        ) == Ok::<(Seq<u8>, Seq<char>), (Seq<u8>, ErrorKind)>((skip(rest, 2), lossy_utf8(v))),
{
    let t = "Name=".spec_bytes();
    let body = seq![0x22u8] + quoted_characters::quoted_form(v) + seq![0x22u8] + rest;
    let s = t + body;
    assert(s.subrange(0, t.len() as int) =~= t);
    assert(skip(s, t.len() as int) =~= body);
    quoted_characters::lemma_length_bounds(v, rest, 1, MAX_NAME as int);
}

/// `HelpContextID="`, a decimal number, `"` and a line break.
pub open spec fn spec_help_id(s: Seq<u8>) -> Outcome<i32> {
    match spec_tag(s, "HelpContextID=\"".spec_bytes()) {
        Err(e) => Err(e),
        Ok((r1, _)) => match int_32::spec_parse(r1) {
            Err(e) => Err(e),
            Ok((r2, v)) => match spec_tag(r2, seq![0x22u8]) {
                Err(e) => Err(e),
                Ok((r3, _)) => match new_line::spec_parse(r3) {
                    Err(e) => Err(e),
                    Ok((r4, _)) => Ok((r4, v)),
                },
            },
        },
    }
}

/// The compatibility line and its line break.
pub open spec fn spec_version(s: Seq<u8>) -> Outcome<()> {
    match spec_tag(s, "VersionCompatible32=\"393222000\"".spec_bytes()) {
        Err(e) => Err(e),
        Ok((r1, _)) => match new_line::spec_parse(r1) {
            Err(e) => Err(e),
            Ok((r2, _)) => Ok((r2, ())),
        },
    }
}

/// A fixed text, `min` to `max` hex digits read as bytes, `"` and a line
/// break.
pub open spec fn spec_encrypted_line(s: Seq<u8>, t: Seq<u8>, min: int, max: int) -> Outcome<Seq<u8>> {
    match spec_tag(s, t) {
        Err(e) => Err(e),
        Ok((r1, _)) => match hexdigits::spec_parse(r1, min, max) {
            Err(e) => Err(e),
            Ok((r2, v)) => match spec_tag(r2, seq![0x22u8]) {
                Err(e) => Err(e),
                Ok((r3, _)) => match new_line::spec_parse(r3) {
                    Err(e) => Err(e),
                    Ok((r4, _)) => Ok((r4, v)),
                },
            },
        },
    }
}

/// The fields before the protected ones.
pub struct HeaderModel {
    pub id: u128,
    pub items: Seq<ItemModel>,
    pub help_file: Option<Seq<char>>,
    pub exe_name: Option<Seq<char>>,
    pub name: Seq<char>,
    pub help_id: i32,
    pub description: Option<Seq<char>>,
}

/// The lines from the project id through the compatibility version.
#[verifier::opaque]
pub open spec fn spec_header(s: Seq<u8>) -> Outcome<HeaderModel> {
    match spec_id(s) {
        Err(e) => Err(e),
        Ok((r1, id)) => {
            let (r2, items) = spec_items(r1);
            let (r3, help_file) = optional(r2, spec_text_line(r2, "HelpFile=".spec_bytes(), 0, path::MAX_PATH as int));
                let (r4, exe_name) = optional(r3, spec_text_line(r3, "ExeName32=".spec_bytes(), 0, path::MAX_PATH as int));
                match spec_text_line(r4, "Name=".spec_bytes(), 1, MAX_NAME as int) {
                    Err(e) => Err(e),
                    Ok((r5, name)) => match spec_help_id(r5) {
                        Err(e) => Err(e),
                        Ok((r6, help_id)) => {
                            let (r7, description) = optional(
                                r6,
                                spec_text_line(r6, "Description=".spec_bytes(), 0, MAX_DESCRIPTION as int),
                            );
                            let (r8, _) = optional(r7, spec_version(r7));
                            Ok(
                                (
                                    r8,
                                    HeaderModel {
                                        id,
                                        items,
                                        help_file,
                                        exe_name,
                                        name,
                                        help_id,
                                        description,
                                    },
                                ),
                            )
                        },
                    },
                }
        },
    }
}

/// The fields before the protected ones, as read.
struct Header {
    id: u128,
    items: Vec<Item>,
    help_file: Option<String>,
    exe_name: Option<String>,
    name: String,
    help_id: i32,
    description: Option<String>,
}

impl View for Header {
    type V = HeaderModel;

    closed spec fn view(&self) -> HeaderModel {
        HeaderModel {
            id: self.id,
            items: items_view(self.items@),
            help_file: opt_text(self.help_file),
            exe_name: opt_text(self.exe_name),
            name: self.name@,
            help_id: self.help_id,
            description: opt_text(self.description),
        }
    }
}

/// The characters of an optional string.
pub open spec fn opt_text(t: Option<String>) -> Option<Seq<char>> {
    match t {
        Some(s) => Some(s@),
        None => None,
    }
}

fn id_line(input: &[u8]) -> (r: Result<(&[u8], u128), ParseError>)
    ensures
        agrees(r, spec_id(input@)),
{
    let (r1, _) = tag(input, "ID=\"".as_bytes())?;
    let (r2, g) = guid::parse(r1)?;
    let (r3, _) = tag_byte(r2, 0x22)?;
    let (r4, _) = new_line::parse(r3)?;
    Ok((r4, g))
}

fn text_line<'a>(input: &'a [u8], t: &[u8], min: usize, max: usize) -> (r: Result<(&'a [u8], String), ParseError>)
    ensures
        agrees(r, spec_text_line(input@, t@, min as int, max as int)),
{
    let (r1, _) = tag(input, t)?;
    let (r2, v) = quoted_characters::parse(r1, min, max)?;
    let (r3, _) = new_line::parse(r2)?;
    Ok((r3, v))
}

fn help_id_line(input: &[u8]) -> (r: Result<(&[u8], i32), ParseError>)
    ensures
        agrees(r, spec_help_id(input@)),
{
    let (r1, _) = tag(input, "HelpContextID=\"".as_bytes())?;
    let (r2, v) = int_32::parse(r1)?;
    let (r3, _) = tag_byte(r2, 0x22)?;
    let (r4, _) = new_line::parse(r3)?;
    Ok((r4, v))
}

fn version_line(input: &[u8]) -> (r: Result<(&[u8], ()), ParseError>)
    ensures
        agrees(r, spec_version(input@)),
{
    let (r1, _) = tag(input, "VersionCompatible32=\"393222000\"".as_bytes())?;
    let (r2, _) = new_line::parse(r1)?;
    Ok((r2, ()))
}

fn encrypted_line<'a>(input: &'a [u8], t: &[u8], min: usize, max: usize) -> (r: Result<(&'a [u8], Vec<u8>), ParseError>)
    ensures
        agrees(r, spec_encrypted_line(input@, t@, min as int, max as int)),
{
    let (r1, _) = tag(input, t)?;
    let (r2, v) = hexdigits::parse(r1, min, max)?;
    let (r3, _) = tag_byte(r2, 0x22)?;
    let (r4, _) = new_line::parse(r3)?;
    Ok((r4, v))
}

fn optional_text<'a>(input: &'a [u8], t: &[u8], min: usize, max: usize) -> (r: (&'a [u8], Option<String>))
    ensures
        (r.0@, opt_text(r.1)) == optional(input@, spec_text_line(input@, t@, min as int, max as int)),
{
    match text_line(input, t, min, max) {
        Ok((rest, v)) => (rest, Some(v)),
        Err(_) => (input, None),
    }
}

fn header(input: &[u8]) -> (r: Result<(&[u8], Header), ParseError>)
    ensures
        agrees(r, spec_header(input@)),
{
    reveal(spec_header);
    let (r1, id) = id_line(input)?;
    let (r2, items) = items(r1);
    let (r3, help_file) = optional_text(r2, "HelpFile=".as_bytes(), 0, path::MAX_PATH);
    let (r4, exe_name) = optional_text(r3, "ExeName32=".as_bytes(), 0, path::MAX_PATH);
    let (r5, name) = text_line(r4, "Name=".as_bytes(), 1, MAX_NAME)?;
    let (r6, help_id) = help_id_line(r5)?;
    let (r7, description) = optional_text(r6, "Description=".as_bytes(), 0, MAX_DESCRIPTION);
    let r8 = match version_line(r7) {
        Ok((r, _)) => r,
        Err(_) => r7,
    };
    let h = Header { id, items, help_file, exe_name, name, help_id, description };
    assert(h@ == HeaderModel {
        id,
        items: items_view(items@),
        help_file: opt_text(help_file),
        exe_name: opt_text(exe_name),
        name: name@,
        help_id,
        description: opt_text(description),
    });
    Ok((r8, h))
}

/// A parsed PROJECT stream. It is built once and never changed.
#[derive(Debug)]
pub struct Project {
    id: u128,
    items: Vec<Item>,
    help_file: Option<String>,
    exe_name: Option<String>,
    name: String,
    help_id: i32,
    description: Option<String>,
    protection_state: ProtectionState,
    password: Password,
    visibility_state: Visibility,
    host_extenders: Vec<HostExtenderRef>,
    workspace: Option<Vec<WindowRecord>>,
}

/// [`Project`] over spec values.
pub struct ProjectModel {
    pub id: u128,
    pub items: Seq<ItemModel>,
    pub help_file: Option<Seq<char>>,
    pub exe_name: Option<Seq<char>>,
    pub name: Seq<char>,
    pub help_id: i32,
    pub description: Option<Seq<char>>,
    pub protection_state: ProtectionState,
    pub password: PasswordModel,
    pub visibility_state: Visibility,
    pub host_extenders: Seq<HostExtenderModel>,
    pub workspace: Option<Seq<WindowRecordModel>>,
}

impl View for Project {
    type V = ProjectModel;

    closed spec fn view(&self) -> ProjectModel {
        ProjectModel {
            id: self.id,
            items: items_view(self.items@),
            help_file: opt_text(self.help_file),
            exe_name: opt_text(self.exe_name),
            name: self.name@,
            help_id: self.help_id,
            description: opt_text(self.description),
            protection_state: self.protection_state,
            password: self.password@,
            visibility_state: self.visibility_state,
            host_extenders: extenders_view(self.host_extenders@),
            workspace: match self.workspace {
                Some(w) => Some(windows_view(w@)),
                None => None,
            },
        }
    }
}

/// Why a stream is no project, over spec values: the text does not follow
/// the grammar from the given input on, or a protected field holds no
/// value: its encrypted bytes, and the input from its line on.
pub enum ProjectFailure {
    Grammar(Seq<u8>),
    ProtectionState(Seq<u8>, Seq<u8>),
    Password(Seq<u8>, Seq<u8>),
    Visibility(Seq<u8>, Seq<u8>),
}

/// The protection state that encrypted bytes hold.
pub open spec fn decoded_protection(enc: Seq<u8>) -> Option<ProtectionState> {
    match decrypted(enc) {
        Some(d) => protection_value(d),
        None => None,
    }
}

/// The password that encrypted bytes hold.
pub open spec fn decoded_password(enc: Seq<u8>) -> Option<PasswordModel> {
    match decrypted(enc) {
        Some(d) => password_value(d),
        None => None,
    }
}

/// The visibility that encrypted bytes hold.
pub open spec fn decoded_visibility(enc: Seq<u8>) -> Option<Visibility> {
    match decrypted(enc) {
        Some(d) => visibility_value(d),
        None => None,
    }
}

/// The fields after the header: the protected fields, the host extenders and
/// the workspace.
#[verifier::opaque]
pub open spec fn spec_body(s: Seq<u8>, h: HeaderModel) -> Result<ProjectModel, ProjectFailure> {
    match spec_encrypted_line(s, "CMG=\"".spec_bytes(), 22, 28) {
        Err((at, _)) => Err(ProjectFailure::Grammar(at)),
        Ok((r1, cmg)) => match decoded_protection(cmg) {
            None => Err(ProjectFailure::ProtectionState(cmg, s)),
            Some(protection_state) => match spec_encrypted_line(r1, "DPB=\"".spec_bytes(), 16, 2000) {
                Err((at, _)) => Err(ProjectFailure::Grammar(at)),
                Ok((r2, dpb)) => match decoded_password(dpb) {
                    None => Err(ProjectFailure::Password(dpb, r1)),
                    Some(password) => match spec_encrypted_line(r2, "GC=\"".spec_bytes(), 16, 22) {
                        Err((at, _)) => Err(ProjectFailure::Grammar(at)),
                        Ok((r3, gc)) => match decoded_visibility(gc) {
                            None => Err(ProjectFailure::Visibility(gc, r2)),
                            Some(visibility_state) => match spec_host_extenders(r3) {
                                Err((at, _)) => Err(ProjectFailure::Grammar(at)),
                                Ok((r4, host_extenders)) => {
                                    let (_, workspace) = optional(r4, spec_workspace(r4));
                                    Ok(
                                        ProjectModel {
                                            id: h.id,
                                            items: h.items,
                                            help_file: h.help_file,
                                            exe_name: h.exe_name,
                                            name: h.name,
                                            help_id: h.help_id,
                                            description: h.description,
                                            protection_state,
                                            password,
                                            visibility_state,
                                            host_extenders,
                                            workspace,
                                        },
                                    )
                                },
                            },
                        },
                    },
                },
            },
        },
    }
}

/// The project that a whole PROJECT stream holds; what follows the last
/// section is not read.
pub open spec fn spec_project(s: Seq<u8>) -> Result<ProjectModel, ProjectFailure> {
    match spec_header(s) {
        Err((at, _)) => Err(ProjectFailure::Grammar(at)),
        Ok((r, h)) => spec_body(r, h),
    }
}

impl Project {
    /// Reads a whole PROJECT stream.
    ///
    /// Fails with `Grammar`, holding the input where the failing rule stood
    /// and the whole stream, where the text does not follow the grammar; and
    /// with the field's own error, the input from the field's line on and the
    /// whole stream, where a protected field holds no value.
    pub fn from_stream(buf: &[u8]) -> (r: Result<Project, ProjectStructure>)
        ensures
            match spec_project(buf@) {
                Ok(m) => (r matches Ok(p) && p@ == m),
                Err(ProjectFailure::Grammar(at)) => (r matches Err(
                    ProjectStructure::Grammar(rest, all),
                ) && rest@ == at && all@ == buf@),
                Err(ProjectFailure::ProtectionState(enc, at)) => (r matches Err(
                    ProjectStructure::ProtectionState(e, rest, all),
                ) && protection_outcome(enc, Err(e)) && rest@ == at && all@ == buf@),
                Err(ProjectFailure::Password(enc, at)) => (r matches Err(
                    ProjectStructure::Password(e, rest, all),
                ) && password_outcome(enc, Err(e)) && rest@ == at && all@ == buf@),
                Err(ProjectFailure::Visibility(enc, at)) => (r matches Err(
                    ProjectStructure::Visibility(e, rest, all),
                ) && visibility_outcome(enc, Err(e)) && rest@ == at && all@ == buf@),
            },
    {
        let (r1, h) = match header(buf) {
            Ok(v) => v,
            Err(e) => return Err(ProjectStructure::Grammar(e.input, slice_to_vec(buf))),
        };
        reveal(spec_body);
        let (r2, cmg) = match encrypted_line(r1, "CMG=\"".as_bytes(), 22, 28) {
            Ok(v) => v,
            Err(e) => return Err(ProjectStructure::Grammar(e.input, slice_to_vec(buf))),
        };
        let protection_state = match decode_protection_state(cmg.as_slice()) {
            Ok(v) => v,
            Err(e) => {
                return Err(ProjectStructure::ProtectionState(e, slice_to_vec(r1), slice_to_vec(buf)))
            },
        };
        let (r3, dpb) = match encrypted_line(r2, "DPB=\"".as_bytes(), 16, 2000) {
            Ok(v) => v,
            Err(e) => return Err(ProjectStructure::Grammar(e.input, slice_to_vec(buf))),
        };
        let password = match decode_password(dpb.as_slice()) {
            Ok(v) => v,
            Err(e) => {
                return Err(ProjectStructure::Password(e, slice_to_vec(r2), slice_to_vec(buf)))
            },
        };
        let (r4, gc) = match encrypted_line(r3, "GC=\"".as_bytes(), 16, 22) {
            Ok(v) => v,
            Err(e) => return Err(ProjectStructure::Grammar(e.input, slice_to_vec(buf))),
        };
        let visibility_state = match decode_visibility(gc.as_slice()) {
            Ok(v) => v,
            Err(e) => {
                return Err(ProjectStructure::Visibility(e, slice_to_vec(r3), slice_to_vec(buf)))
            },
        };
        let (r5, host_extenders) = match host_extenders(r4) {
            Ok(v) => v,
            Err(e) => return Err(ProjectStructure::Grammar(e.input, slice_to_vec(buf))),
        };
        let workspace = match workspace(r5) {
            Ok((_, w)) => Some(w),
            Err(_) => None,
        };
        let p = Project {
            id: h.id,
            items: h.items,
            help_file: h.help_file,
            exe_name: h.exe_name,
            name: h.name,
            help_id: h.help_id,
            description: h.description,
            protection_state,
            password,
            visibility_state,
            host_extenders,
            workspace,
        };
        Ok(p)
    }

    /// Whether the project is locked for viewing.
    pub fn is_locked(&self) -> (r: bool)
        ensures
            r == self@.protection_state.vbe,
    {
        self.protection_state.vbe
    }

    /// How the project password is stored.
    pub fn password(&self) -> (r: &Password)
        ensures
            r@ == self@.password,
    {
        &self.password
    }
}

} // verus!
