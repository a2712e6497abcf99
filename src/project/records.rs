//! The repeated records of a PROJECT stream: project items, host extender
//! references and window records.
use vstd::prelude::*;
use vstd::string::StringSliceAdditionalSpecFns;
use crate::text::{lossy_utf8, string_from_utf8_lossy};
use crate::types::{
    agrees, guid, hex_int_32, int_32, module_identifier, new_line, skip, spec_tag, starts_with, tag, tag_byte,
    ErrorKind, Outcome, ParseError, rest_after,
};

verus! {

/// A module of the project.
#[derive(Debug, PartialEq, Eq)]
pub enum Module {
    /// A document module, with the version of its type library.
    Doc(String, i32),
    Std(String),
    Class(String),
    Designer(String),
}

/// [`Module`] over spec values.
pub enum ModuleModel {
    Doc(Seq<char>, i32),
    Std(Seq<char>),
    Class(Seq<char>),
    Designer(Seq<char>),
}

impl View for Module {
    type V = ModuleModel;

    open spec fn view(&self) -> ModuleModel {
        match self {
            Module::Doc(n, v) => ModuleModel::Doc(n@, *v),
            Module::Std(n) => ModuleModel::Std(n@),
            Module::Class(n) => ModuleModel::Class(n@),
            Module::Designer(n) => ModuleModel::Designer(n@),
        }
    }
}

/// An item of the project: a module or a package.
#[derive(Debug, PartialEq, Eq)]
pub enum Item {
    Module(Module),
    Package(u128),
}

/// [`Item`] over spec values.
pub enum ItemModel {
    Module(ModuleModel),
    Package(u128),
}

impl View for Item {
    type V = ItemModel;

    open spec fn view(&self) -> ItemModel {
        match self {
            Item::Module(m) => ItemModel::Module(m@),
            Item::Package(g) => ItemModel::Package(*g),
        }
    }
}

/// The views of a run of items.
pub open spec fn items_view(v: Seq<Item>) -> Seq<ItemModel> {
    v.map_values(|i: Item| i@)
}

/// A reference to a host extender.
#[derive(Debug, PartialEq, Eq)]
pub struct HostExtenderRef {
    pub index: i32,
    pub guid: u128,
    pub lib: String,
    pub creation_flags: i32,
}

/// [`HostExtenderRef`] over spec values.
pub struct HostExtenderModel {
    pub index: i32,
    pub guid: u128,
    pub lib: Seq<char>,
    pub creation_flags: i32,
}

impl View for HostExtenderRef {
    type V = HostExtenderModel;

    open spec fn view(&self) -> HostExtenderModel {
        HostExtenderModel {
            index: self.index,
            guid: self.guid,
            lib: self.lib@,
            creation_flags: self.creation_flags,
        }
    }
}

/// The views of a run of host extender references.
pub open spec fn extenders_view(v: Seq<HostExtenderRef>) -> Seq<HostExtenderModel> {
    v.map_values(|x: HostExtenderRef| x@)
}

/// The state of a window.
#[derive(Debug, Clone, Copy, PartialEq, Eq)]
pub enum WindowState {
    Closed,
    Zoomed,
    Minimized,
}

/// The position and state of a window.
#[derive(Debug, Clone, Copy, PartialEq, Eq)]
pub struct Window {
    pub left: i32,
    pub top: i32,
    pub right: i32,
    pub bottom: i32,
    pub state: WindowState,
}

impl View for WindowState {
    type V = WindowState;

    open spec fn view(&self) -> WindowState {
        *self
    }
}

impl View for Window {
    type V = Window;

    open spec fn view(&self) -> Window {
        *self
    }
}

/// The windows of a module: its code, and perhaps its designer.
#[derive(Debug, PartialEq, Eq)]
pub struct WindowRecord {
    pub module: String,
    pub code: Window,
    pub designer: Option<Window>,
}

/// [`WindowRecord`] over spec values.
pub struct WindowRecordModel {
    pub module: Seq<char>,
    pub code: Window,
    pub designer: Option<Window>,
}

impl View for WindowRecord {
    type V = WindowRecordModel;

    open spec fn view(&self) -> WindowRecordModel {
        WindowRecordModel { module: self.module@, code: self.code, designer: self.designer }
    }
}

/// The views of a run of window records.
pub open spec fn windows_view(v: Seq<WindowRecord>) -> Seq<WindowRecordModel> {
    v.map_values(|x: WindowRecord| x@)
}

/// A fixed text, then a module name.
pub open spec fn spec_tagged_name(s: Seq<u8>, t: Seq<u8>) -> Outcome<Seq<char>> {
    match spec_tag(s, t) {
        Err(e) => Err(e),
        Ok((r, _)) => module_identifier::spec_parse(r),
    }
}

/// `Document=`, a module name, `/` and the type library version.
pub open spec fn spec_document(s: Seq<u8>) -> Outcome<ModuleModel> {
    match spec_tagged_name(s, "Document=".spec_bytes()) {
        Err(e) => Err(e),
        Ok((r1, n)) => match spec_tag(r1, seq![0x2fu8]) {
            Err(e) => Err(e),
            Ok((r2, _)) => match hex_int_32::spec_parse(r2) {
                Err(e) => Err(e),
                Ok((r3, v)) => Ok((r3, ModuleModel::Doc(n, v))),
            },
        },
    }
}

/// A module: document, standard (`Module=`), class (`Class=`) or designer
/// (`BaseClass=`), tried in that order. Where none fits, the failure of the
/// last.
pub open spec fn spec_module(s: Seq<u8>) -> Outcome<ModuleModel> {
    match spec_document(s) {
        Ok(v) => Ok(v),
        Err(_) => match spec_tagged_name(s, "Module=".spec_bytes()) {
            Ok((r, n)) => Ok((r, ModuleModel::Std(n))),
            Err(_) => match spec_tagged_name(s, "Class=".spec_bytes()) {
                Ok((r, n)) => Ok((r, ModuleModel::Class(n))),
                Err(_) => match spec_tagged_name(s, "BaseClass=".spec_bytes()) {
                    Ok((r, n)) => Ok((r, ModuleModel::Designer(n))),
                    Err(e) => Err(e),
                },
            },
        },
    }
}

/// A module, or else `Package=` and a GUID.
#[verifier::opaque]
pub open spec fn spec_item(s: Seq<u8>) -> Outcome<ItemModel> {
    match spec_module(s) {
        Ok((r, m)) => Ok((r, ItemModel::Module(m))),
        Err(_) => match spec_tag(s, "Package=".spec_bytes()) {
            Err(e) => Err(e),
            Ok((r1, _)) => match guid::spec_parse(r1) {
                Err(e) => Err(e),
                Ok((r2, g)) => Ok((r2, ItemModel::Package(g))),
            },
        },
    }
}

/// Puts values read earlier before the values of a run.
pub open spec fn joined<V>(p: Seq<V>, run: (Seq<u8>, Seq<V>)) -> (Seq<u8>, Seq<V>) {
    (run.0, p + run.1)
}

/// An item and the line break that ends its line.
#[verifier::opaque]
pub open spec fn spec_item_line(s: Seq<u8>) -> Outcome<ItemModel> {
    match spec_item(s) {
        Err(e) => Err(e),
        Ok((r1, it)) => match new_line::spec_parse(r1) {
            Err(e) => Err(e),
            Ok((r2, _)) => Ok((r2, it)),
        },
    }
}

/// Item lines, as many as follow; at most `fuel` of them.
pub open spec fn spec_item_lines(s: Seq<u8>, fuel: nat) -> (Seq<u8>, Seq<ItemModel>)
    decreases fuel,
{
    if fuel == 0 {
        (s, Seq::empty())
    } else {
        match spec_item_line(s) {
            Err(_) => (s, Seq::empty()),
            Ok((r, it)) => joined(seq![it], spec_item_lines(r, (fuel - 1) as nat)),
        }
    }
}

/// The item lines, perhaps none: where none follows, the input is left as
/// it is. Each line takes at least two bytes, so a fuel of the input length
/// is never used up (`lemma_item_lines_fuel`).
pub open spec fn spec_items(s: Seq<u8>) -> (Seq<u8>, Seq<ItemModel>) {
    spec_item_lines(s, s.len())
}

fn tagged_name<'a>(input: &'a [u8], t: &[u8]) -> (r: Result<(&'a [u8], String), ParseError>)
    ensures
        agrees(r, spec_tagged_name(input@, t@)),
{
    let (rest, _) = tag(input, t)?;
    module_identifier::parse(rest)
}

fn document(input: &[u8]) -> (r: Result<(&[u8], Module), ParseError>)
    ensures
        agrees(r, spec_document(input@)),
{
    let (r1, n) = tagged_name(input, "Document=".as_bytes())?;
    let (r2, _) = tag_byte(r1, 0x2f)?;
    let (r3, v) = hex_int_32::parse(r2)?;
    Ok((r3, Module::Doc(n, v)))
}

fn module(input: &[u8]) -> (r: Result<(&[u8], Module), ParseError>)
    ensures
        agrees(r, spec_module(input@)),
{
    if let Ok((r, m)) = document(input) {
        return Ok((r, m));
    }
    if let Ok((r, n)) = tagged_name(input, "Module=".as_bytes()) {
        return Ok((r, Module::Std(n)));
    }
    if let Ok((r, n)) = tagged_name(input, "Class=".as_bytes()) {
        return Ok((r, Module::Class(n)));
    }
    let (r, n) = tagged_name(input, "BaseClass=".as_bytes())?;
    Ok((r, Module::Designer(n)))
}

fn item(input: &[u8]) -> (r: Result<(&[u8], Item), ParseError>)
    ensures
        agrees(r, spec_item(input@)),
{
    reveal(spec_item);
    if let Ok((r, m)) = module(input) {
        return Ok((r, Item::Module(m)));
    }
    let (r1, _) = tag(input, "Package=".as_bytes())?;
    let (r2, g) = guid::parse(r1)?;
    Ok((r2, Item::Package(g)))
}

/// An item line takes at least two bytes, its line break.
pub proof fn lemma_item_line_consumes(s: Seq<u8>)
    ensures
        spec_item_line(s) matches Ok((r, _)) ==> r.len() + 2 <= s.len(),
{
    reveal(spec_item_line);
    reveal(spec_item);
    let t1 = "Document=".spec_bytes();
    let t2 = "Module=".spec_bytes();
    let t3 = "Class=".spec_bytes();
    let t4 = "BaseClass=".spec_bytes();
    let t5 = "Package=".spec_bytes();
    if starts_with(s, t1) {
        module_identifier::lemma_consumes(skip(s, t1.len() as int));
    }
    if starts_with(s, t2) {
        module_identifier::lemma_consumes(skip(s, t2.len() as int));
    }
    if starts_with(s, t3) {
        module_identifier::lemma_consumes(skip(s, t3.len() as int));
    }
    if starts_with(s, t4) {
        module_identifier::lemma_consumes(skip(s, t4.len() as int));
    }
}

/// Item lines take more than one byte each, so a fuel of the input length
/// is never used up.
pub proof fn lemma_item_lines_fuel(s: Seq<u8>, fuel: nat)
    requires
        fuel >= s.len(),
    ensures
        spec_item_lines(s, fuel) == spec_item_lines(s, fuel + 1),
    decreases fuel,
{
    lemma_item_line_consumes(s);
    if let Ok((r, _)) = spec_item_line(s) {
        lemma_item_lines_fuel(r, (fuel - 1) as nat);
    }
}

fn item_line(input: &[u8]) -> (r: Result<(&[u8], Item), ParseError>)
    ensures
        agrees(r, spec_item_line(input@)),
{
    reveal(spec_item_line);
    let (r1, it) = item(input)?;
    let (r2, _) = new_line::parse(r1)?;
    Ok((r2, it))
}

/// Reads the item lines, perhaps none.
pub fn items(input: &[u8]) -> (r: (&[u8], Vec<Item>))
    ensures
        spec_items(input@) == (r.0@, items_view(r.1@)),
{
    let mut out: Vec<Item> = Vec::new();
    let mut cur = input;
    let mut fuel: usize = input.len();
    assert(items_view(out@) =~= Seq::<ItemModel>::empty());
    while fuel > 0
        invariant
            spec_items(input@) == joined(items_view(out@), spec_item_lines(cur@, fuel as nat)),
        ensures
            spec_item_lines(cur@, fuel as nat) == (cur@, Seq::<ItemModel>::empty()),
        decreases fuel,
    {
        let (r, it) = match item_line(cur) {
            Ok(v) => v,
            Err(_) => break,
        };
        proof {
            let tail = spec_item_lines(r@, (fuel - 1) as nat);
            assert(items_view(out@.push(it)) =~= items_view(out@) + seq![it@]);
            assert(items_view(out@) + (seq![it@] + tail.1) =~= items_view(out@.push(it)) + tail.1);
        }
        out.push(it);
        cur = r;
        fuel -= 1;
    }
    assert(items_view(out@) + Seq::<ItemModel>::empty() =~= items_view(out@));
    (cur, out)
}

/// A library name byte: above space, and not `;`.
pub open spec fn is_lib_byte(b: u8) -> bool {
    b > 0x20 && b != 0x3b
}

/// How many library name bytes follow `start` in a row.
pub open spec fn lib_run(s: Seq<u8>, start: int) -> int
    decreases s.len() - start,
{
    if start < 0 || start >= s.len() || !is_lib_byte(s[start]) {
        0
    } else {
        1 + lib_run(s, start + 1)
    }
}

/// A library name: all the name bytes that follow, perhaps none, read as
/// UTF-8 where they are, and lossily where they are not.
pub open spec fn spec_lib_name(s: Seq<u8>) -> Outcome<Seq<char>> {
    let n = lib_run(s, 0);
    Ok((skip(s, n), lossy_utf8(s.subrange(0, n))))
}

proof fn lemma_lib_run_bound(s: Seq<u8>, start: int)
    requires
        0 <= start <= s.len(),
    ensures
        0 <= lib_run(s, start) <= s.len() - start,
    decreases s.len() - start,
{
    if start < s.len() && is_lib_byte(s[start]) {
        lemma_lib_run_bound(s, start + 1);
    }
}

/// A host extender reference takes at least two bytes, its line break.
pub proof fn lemma_host_extender_ref_consumes(s: Seq<u8>)
    ensures
        spec_host_extender_ref(s) matches Ok((r, _)) ==> r.len() + 2 <= s.len(),
{
    reveal(spec_host_extender_ref);
    if let Ok((r1, _)) = hex_int_32::spec_parse(s) {
        if let Ok((r2, _)) = spec_tag(r1, seq![0x3du8]) {
            if let Ok((r3, _)) = guid::spec_parse(r2) {
                if let Ok((r4, _)) = spec_tag(r3, seq![0x3bu8]) {
                    lemma_lib_run_bound(r4, 0);
                }
            }
        }
    }
}

/// Host extender references take more than one byte each, so a fuel of the
/// input length is never used up.
pub proof fn lemma_extender_refs_fuel(s: Seq<u8>, fuel: nat)
    requires
        fuel >= s.len(),
    ensures
        spec_extender_refs(s, fuel) == spec_extender_refs(s, fuel + 1),
    decreases fuel,
{
    lemma_host_extender_ref_consumes(s);
    if let Ok((r, _)) = spec_host_extender_ref(s) {
        lemma_extender_refs_fuel(r, (fuel - 1) as nat);
    }
}

proof fn lemma_lib_run(s: Seq<u8>, start: int, k: int)
    requires
        0 <= start,
        0 <= k,
        start + k <= s.len(),
        forall|j: int| start <= j < start + k ==> is_lib_byte(#[trigger] s[j]),
    ensures
        lib_run(s, start) == k + lib_run(s, start + k),
    decreases k,
{
    if k > 0 {
        assert(is_lib_byte(s[start]));
        lemma_lib_run(s, start + 1, k - 1);
    }
}

fn lib_name(input: &[u8]) -> (r: Result<(&[u8], String), ParseError>)
    ensures
        agrees(r, spec_lib_name(input@)),
{
    let mut n: usize = 0;
    while n < input.len() && input[n] > 0x20 && input[n] != 0x3b
        invariant
            n <= input@.len(),
            forall|j: int| 0 <= j < n ==> is_lib_byte(#[trigger] input@[j]),
        decreases input@.len() - n,
    {
        n += 1;
    }
    proof {
        lemma_lib_run(input@, 0, n as int);
    }
    let (head, rest) = input.split_at(n);
    Ok((rest, string_from_utf8_lossy(head)))
}

/// `index=GUID;library;flags` and a line break, the index and flags in
/// `&H` hex.
#[verifier::opaque]
pub open spec fn spec_host_extender_ref(s: Seq<u8>) -> Outcome<HostExtenderModel> {
    match hex_int_32::spec_parse(s) {
        Err(e) => Err(e),
        Ok((r1, index)) => match spec_tag(r1, seq![0x3du8]) {
            Err(e) => Err(e),
            Ok((r2, _)) => match guid::spec_parse(r2) {
                Err(e) => Err(e),
                Ok((r3, g)) => match spec_tag(r3, seq![0x3bu8]) {
                    Err(e) => Err(e),
                    Ok((r4, _)) => match spec_lib_name(r4) {
                        Err(e) => Err(e),
                        Ok((r5, lib)) => match spec_tag(r5, seq![0x3bu8]) {
                            Err(e) => Err(e),
                            Ok((r6, _)) => match hex_int_32::spec_parse(r6) {
                                Err(e) => Err(e),
                                Ok((r7, flags)) => match new_line::spec_parse(r7) {
                                    Err(e) => Err(e),
                                    Ok((r8, _)) => Ok(
                                        (
                                            r8,
                                            HostExtenderModel {
                                                index,
                                                guid: g,
                                                lib,
                                                creation_flags: flags,
                                            },
                                        ),
                                    ),
                                },
                            },
                        },
                    },
                },
            },
        },
    }
}

fn host_extender_ref(input: &[u8]) -> (r: Result<(&[u8], HostExtenderRef), ParseError>)
    ensures
        agrees(r, spec_host_extender_ref(input@)),
{
    reveal(spec_host_extender_ref);
    let (r1, index) = hex_int_32::parse(input)?;
    let (r2, _) = tag_byte(r1, 0x3d)?;
    let (r3, g) = guid::parse(r2)?;
    let (r4, _) = tag_byte(r3, 0x3b)?;
    let (r5, lib) = lib_name(r4)?;
    let (r6, _) = tag_byte(r5, 0x3b)?;
    let (r7, flags) = hex_int_32::parse(r6)?;
    let (r8, _) = new_line::parse(r7)?;
    Ok((r8, HostExtenderRef { index, guid: g, lib, creation_flags: flags }))
}

/// Host extender references, as many as follow; at most `fuel` of them.
pub open spec fn spec_extender_refs(s: Seq<u8>, fuel: nat) -> (Seq<u8>, Seq<HostExtenderModel>)
    decreases fuel,
{
    if fuel == 0 {
        (s, Seq::empty())
    } else {
        match spec_host_extender_ref(s) {
            Err(_) => (s, Seq::empty()),
            Ok((r, x)) => joined(seq![x], spec_extender_refs(r, (fuel - 1) as nat)),
        }
    }
}

/// A line break, `[Host Extender Info]`, a line break, then the references.
/// Each takes at least two bytes, so a fuel of the input length is never used
/// up (`lemma_extender_refs_fuel`).
pub open spec fn spec_host_extenders(s: Seq<u8>) -> Outcome<Seq<HostExtenderModel>> {
    match new_line::spec_parse(s) {
        Err(e) => Err(e),
        Ok((r1, _)) => match spec_tag(r1, "[Host Extender Info]".spec_bytes()) {
            Err(e) => Err(e),
            Ok((r2, _)) => match new_line::spec_parse(r2) {
                Err(e) => Err(e),
                Ok((r3, _)) => {
                    let run = spec_extender_refs(r3, r3.len());
                    Ok((run.0, run.1))
                },
            },
        },
    }
}

/// Reads the host extender section.
pub fn host_extenders(input: &[u8]) -> (r: Result<(&[u8], Vec<HostExtenderRef>), ParseError>)
    ensures
        match r {
            Ok((rest, v)) => spec_host_extenders(input@) == Ok::<
                (Seq<u8>, Seq<HostExtenderModel>),
                (Seq<u8>, ErrorKind),
            >((rest@, extenders_view(v@))),
            Err(e) => spec_host_extenders(input@) == Err::<
                (Seq<u8>, Seq<HostExtenderModel>),
                (Seq<u8>, ErrorKind),
            >((e.input@, e.kind)),
        },
{
    let (r1, _) = new_line::parse(input)?;
    let (r2, _) = tag(r1, "[Host Extender Info]".as_bytes())?;
    let (r3, _) = new_line::parse(r2)?;
    let mut out: Vec<HostExtenderRef> = Vec::new();
    let mut cur = r3;
    let mut fuel: usize = r3.len();
    assert(extenders_view(out@) =~= Seq::<HostExtenderModel>::empty());
    while fuel > 0
        invariant
            spec_extender_refs(r3@, r3@.len()) == joined(
                extenders_view(out@),
                spec_extender_refs(cur@, fuel as nat),
            ),
        ensures
            spec_extender_refs(cur@, fuel as nat) == (cur@, Seq::<HostExtenderModel>::empty()),
        decreases fuel,
    {
        let (r, x) = match host_extender_ref(cur) {
            Ok(v) => v,
            Err(_) => break,
        };
        proof {
            let tail = spec_extender_refs(r@, (fuel - 1) as nat);
            assert(extenders_view(out@.push(x)) =~= extenders_view(out@) + seq![x@]);
            assert(extenders_view(out@) + (seq![x@] + tail.1) =~= extenders_view(out@.push(x))
                + tail.1);
        }
        out.push(x);
        cur = r;
        fuel -= 1;
    }
    assert(extenders_view(out@) + Seq::<HostExtenderModel>::empty() =~= extenders_view(out@));
    Ok((cur, out))
}

/// `C`, `Z` or `I`: closed, zoomed or minimized.
pub open spec fn spec_window_state(s: Seq<u8>) -> Outcome<WindowState> {
    if s.len() >= 1 && s[0] == 0x43 {
        Ok((skip(s, 1), WindowState::Closed))
    } else if s.len() >= 1 && s[0] == 0x5a {
        Ok((skip(s, 1), WindowState::Zoomed))
    } else if s.len() >= 1 && s[0] == 0x49 {
        Ok((skip(s, 1), WindowState::Minimized))
    } else {
        Err((s, ErrorKind::OneOf))
    }
}

/// A decimal number and `, `.
pub open spec fn spec_window_dim(s: Seq<u8>) -> Outcome<i32> {
    match int_32::spec_parse(s) {
        Err(e) => Err(e),
        Ok((r1, v)) => match spec_tag(r1, ", ".spec_bytes()) {
            Err(e) => Err(e),
            Ok((r2, _)) => Ok((r2, v)),
        },
    }
}

/// Left, top, right and bottom, each followed by `, `, then the state.
pub open spec fn spec_window(s: Seq<u8>) -> Outcome<Window> {
    match spec_window_dim(s) {
        Err(e) => Err(e),
        Ok((r1, left)) => match spec_window_dim(r1) {
            Err(e) => Err(e),
            Ok((r2, top)) => match spec_window_dim(r2) {
                Err(e) => Err(e),
                Ok((r3, right)) => match spec_window_dim(r3) {
                    Err(e) => Err(e),
                    Ok((r4, bottom)) => match spec_window_state(r4) {
                        Err(e) => Err(e),
                        Ok((r5, state)) => Ok((r5, Window { left, top, right, bottom, state })),
                    },
                },
            },
        },
    }
}

/// `, ` and a window.
pub open spec fn spec_second_window(s: Seq<u8>) -> Outcome<Window> {
    match spec_tag(s, ", ".spec_bytes()) {
        Err(e) => Err(e),
        Ok((r, _)) => spec_window(r),
    }
}

/// A module name, `=`, its code window, perhaps its designer window, and a
/// line break.
#[verifier::opaque]
pub open spec fn spec_window_record(s: Seq<u8>) -> Outcome<WindowRecordModel> {
    match module_identifier::spec_parse(s) {
        Err(e) => Err(e),
        Ok((r1, m)) => match spec_tag(r1, seq![0x3du8]) {
            Err(e) => Err(e),
            Ok((r2, _)) => match spec_window(r2) {
                Err(e) => Err(e),
                Ok((r3, code)) => {
                    let (r4, designer) = match spec_second_window(r3) {
                        Ok((r, w)) => (r, Some(w)),
                        Err(_) => (r3, None),
                    };
                    match new_line::spec_parse(r4) {
                        Err(e) => Err(e),
                        Ok((r5, _)) => Ok((r5, WindowRecordModel { module: m, code, designer })),
                    }
                },
            },
        },
    }
}

proof fn lemma_window_dim_consumes(s: Seq<u8>)
    ensures
        spec_window_dim(s) matches Ok((r, _)) ==> r.len() <= s.len(),
{
    int_32::lemma_consumes(s);
}

proof fn lemma_window_consumes(s: Seq<u8>)
    ensures
        spec_window(s) matches Ok((r, _)) ==> r.len() <= s.len(),
{
    lemma_window_dim_consumes(s);
    if let Ok((r1, _)) = spec_window_dim(s) {
        lemma_window_dim_consumes(r1);
        if let Ok((r2, _)) = spec_window_dim(r1) {
            lemma_window_dim_consumes(r2);
            if let Ok((r3, _)) = spec_window_dim(r2) {
                lemma_window_dim_consumes(r3);
            }
        }
    }
}

/// A window record takes at least two bytes, its line break.
pub proof fn lemma_window_record_consumes(s: Seq<u8>)
    ensures
        spec_window_record(s) matches Ok((r, _)) ==> r.len() + 2 <= s.len(),
{
    reveal(spec_window_record);
    module_identifier::lemma_consumes(s);
    if let Ok((r1, _)) = module_identifier::spec_parse(s) {
        if let Ok((r2, _)) = spec_tag(r1, seq![0x3du8]) {
            lemma_window_consumes(r2);
            if let Ok((r3, _)) = spec_window(r2) {
                if let Ok((r, _)) = spec_tag(r3, ", ".spec_bytes()) {
                    lemma_window_consumes(r);
                }
            }
        }
    }
}

/// Window records take more than one byte each, so a fuel of the input
/// length is never used up.
pub proof fn lemma_window_records_fuel(s: Seq<u8>, fuel: nat)
    requires
        fuel >= s.len(),
    ensures
        spec_window_records(s, fuel) == spec_window_records(s, fuel + 1),
    decreases fuel,
{
    lemma_window_record_consumes(s);
    if let Ok((r, _)) = spec_window_record(s) {
        lemma_window_records_fuel(r, (fuel - 1) as nat);
    }
}

fn window_state(input: &[u8]) -> (r: Result<(&[u8], WindowState), ParseError>)
    ensures
        agrees(r, spec_window_state(input@)),
{
    if input.len() >= 1 && input[0] == 0x43 {
        Ok((rest_after(input, 1), WindowState::Closed))
    } else if input.len() >= 1 && input[0] == 0x5a {
        Ok((rest_after(input, 1), WindowState::Zoomed))
    } else if input.len() >= 1 && input[0] == 0x49 {
        Ok((rest_after(input, 1), WindowState::Minimized))
    } else {
        Err(ParseError::new(input, ErrorKind::OneOf))
    }
}

fn window_dim(input: &[u8]) -> (r: Result<(&[u8], i32), ParseError>)
    ensures
        agrees(r, spec_window_dim(input@)),
{
    let (r1, v) = int_32::parse(input)?;
    let (r2, _) = tag(r1, ", ".as_bytes())?;
    Ok((r2, v))
}

fn window(input: &[u8]) -> (r: Result<(&[u8], Window), ParseError>)
    ensures
        agrees(r, spec_window(input@)),
{
    let (r1, left) = window_dim(input)?;
    let (r2, top) = window_dim(r1)?;
    let (r3, right) = window_dim(r2)?;
    let (r4, bottom) = window_dim(r3)?;
    let (r5, state) = window_state(r4)?;
    Ok((r5, Window { left, top, right, bottom, state }))
}

fn second_window(input: &[u8]) -> (r: Result<(&[u8], Window), ParseError>)
    ensures
        agrees(r, spec_second_window(input@)),
{
    let (r, _) = tag(input, ", ".as_bytes())?;
    window(r)
}

fn window_record(input: &[u8]) -> (r: Result<(&[u8], WindowRecord), ParseError>)
    ensures
        agrees(r, spec_window_record(input@)),
{
    reveal(spec_window_record);
    let (r1, m) = module_identifier::parse(input)?;
    let (r2, _) = tag_byte(r1, 0x3d)?;
    let (r3, code) = window(r2)?;
    let (r4, designer) = match second_window(r3) {
        Ok((r, w)) => (r, Some(w)),
        Err(_) => (r3, None),
    };
    let (r5, _) = new_line::parse(r4)?;
    Ok((r5, WindowRecord { module: m, code, designer }))
}

/// Window records, as many as follow; at most `fuel` of them.
pub open spec fn spec_window_records(s: Seq<u8>, fuel: nat) -> (Seq<u8>, Seq<WindowRecordModel>)
    decreases fuel,
{
    if fuel == 0 {
        (s, Seq::empty())
    } else {
        match spec_window_record(s) {
            Err(_) => (s, Seq::empty()),
            Ok((r, x)) => joined(seq![x], spec_window_records(r, (fuel - 1) as nat)),
        }
    }
}

/// A line break, `[Workspace]`, a line break, then the window records. Each
/// takes at least two bytes, so a fuel of the input length is never used up
/// (`lemma_window_records_fuel`).
pub open spec fn spec_workspace(s: Seq<u8>) -> Outcome<Seq<WindowRecordModel>> {
    match new_line::spec_parse(s) {
        Err(e) => Err(e),
        Ok((r1, _)) => match spec_tag(r1, "[Workspace]".spec_bytes()) {
            Err(e) => Err(e),
            Ok((r2, _)) => match new_line::spec_parse(r2) {
                Err(e) => Err(e),
                Ok((r3, _)) => {
                    let run = spec_window_records(r3, r3.len());
                    Ok((run.0, run.1))
                },
            },
        },
    }
}

/// Reads the workspace section.
pub fn workspace(input: &[u8]) -> (r: Result<(&[u8], Vec<WindowRecord>), ParseError>)
    ensures
        match r {
            Ok((rest, v)) => spec_workspace(input@) == Ok::<
                (Seq<u8>, Seq<WindowRecordModel>),
                (Seq<u8>, ErrorKind),
            >((rest@, windows_view(v@))),
            Err(e) => spec_workspace(input@) == Err::<
                (Seq<u8>, Seq<WindowRecordModel>),
                (Seq<u8>, ErrorKind),
            >((e.input@, e.kind)),
        },
{
    let (r1, _) = new_line::parse(input)?;
    let (r2, _) = tag(r1, "[Workspace]".as_bytes())?;
    let (r3, _) = new_line::parse(r2)?;
    let mut out: Vec<WindowRecord> = Vec::new();
    let mut cur = r3;
    let mut fuel: usize = r3.len();
    assert(windows_view(out@) =~= Seq::<WindowRecordModel>::empty());
    while fuel > 0
        invariant
            spec_window_records(r3@, r3@.len()) == joined(
                windows_view(out@),
                spec_window_records(cur@, fuel as nat),
            ),
        ensures
            spec_window_records(cur@, fuel as nat) == (cur@, Seq::<WindowRecordModel>::empty()),
        decreases fuel,
    {
        let (r, x) = match window_record(cur) {
            Ok(v) => v,
            Err(_) => break,
        };
        proof {
            let tail = spec_window_records(r@, (fuel - 1) as nat);
            assert(windows_view(out@.push(x)) =~= windows_view(out@) + seq![x@]);
            assert(windows_view(out@) + (seq![x@] + tail.1) =~= windows_view(out@.push(x)) + tail.1);
        }
        out.push(x);
        cur = r;
        fuel -= 1;
    }
    assert(windows_view(out@) + Seq::<WindowRecordModel>::empty() =~= windows_view(out@));
    Ok((cur, out))
}

} // verus!
