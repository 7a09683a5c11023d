//! Read-only script image: one flat code stream shared by every sub, the
//! compact sub/parameter/entry tables, the named-entry index and the
//! mid-stage mark table. `EclImage::try_from_parts` is the load gate: it
//! checks the whole image contract and freezes the tables.
use vstd::prelude::*;
use vstd::utf8::encode_utf8;
use vstd::string::StringSliceAdditionalSpecFns;

verus! {

use crate::ecl::ops::{arity, op_implemented, spec_arity, spec_op_implemented, OP_CALL, OP_JMP, OP_JZ, OP_POPL, OP_PUSHL, OP_SPAWN, OP_SYS};
use crate::ecl::task::LOCALS;

/// Maximum parameters a sub may declare (one task's local-variable count).
pub const MAX_PARAMS: usize = 64;

/// Index of a sub in an image's sub table.
#[derive(Clone, Copy, Debug, PartialEq, Eq, Structural)]
pub struct SubId(u16);

impl View for SubId {
    type V = u16;

    closed spec fn view(&self) -> u16 {
        self.0
    }
}

impl crate::checksum::Checksum for SubId {
    open spec fn checksum_bytes(&self) -> Seq<u8> {
        crate::checksum::le_bytes_u16(self@)
    }

    fn hash_into(&self, h: &mut crate::checksum::Fnv1a64) {
        h.write_u16(self.0);
    }
}

impl SubId {
    /// The sub with index 0 (the value of `SubId::default()`).
    pub closed spec fn spec_zero() -> SubId {
        SubId(0)
    }

    /// The raw sub index.
    pub fn get(self) -> (r: u16)
        ensures
            r == self@,
    {
        self.0
    }
}

impl Default for SubId {
    fn default() -> (r: SubId)
        ensures
            r@ == 0,
            r == SubId::spec_zero(),
    {
        SubId(0)
    }
}

/// Index of a named entry in an image's entry table.
#[derive(Clone, Copy, Debug, PartialEq, Eq, Structural)]
pub struct EntryId(u16);

impl View for EntryId {
    type V = u16;

    closed spec fn view(&self) -> u16 {
        self.0
    }
}

impl EntryId {
    /// The raw entry index.
    pub fn get(self) -> (r: u16)
        ensures
            r == self@,
    {
        self.0
    }
}

/// Why a name could not be resolved to a spawnable entry.
#[derive(Clone, Copy, Debug, PartialEq, Eq, Structural)]
pub enum ResolveError {
    /// `"main"` names the root sub, which only `start_main` may start.
    RootRequiresStartMain,
    /// No entry has this name.
    UnknownEntry,
}

/// Declared type of a sub parameter (and of a typed script argument).
#[derive(Clone, Copy, Debug, PartialEq, Eq, Structural)]
pub enum EclValueType {
    Int,
    Fx,
    Angle,
}

/// The role a sub plays: the single root (`main`), a spawnable task body,
/// or a `CALL` target.
#[derive(Clone, Copy, Debug, PartialEq, Eq, Structural)]
pub enum SubKind {
    Root,
    Async,
    CallOnly,
}

/// Compact run-time record of one sub.
#[derive(Clone, Copy, Debug, PartialEq, Eq, Structural)]
pub struct RuntimeSubMeta {
    pub code_entry: u32,
    pub param_start: u16,
    pub param_count: u8,
    pub kind: SubKind,
}

impl RuntimeSubMeta {
    /// Absolute code index of the sub's first instruction.
    pub fn code_entry(self) -> (r: u32)
        ensures
            r == self.code_entry,
    {
        self.code_entry
    }

    /// The sub's role.
    pub fn kind(self) -> (r: SubKind)
        ensures
            r == self.kind,
    {
        self.kind
    }

    /// Number of declared parameters.
    pub fn param_count(self) -> (r: u8)
        ensures
            r == self.param_count,
    {
        self.param_count
    }
}

/// Compact run-time record of one named entry: a slice of the name pool and
/// the sub it starts.
#[derive(Clone, Copy, Debug, PartialEq, Eq, Structural)]
pub struct RuntimeEntryMeta {
    pub(crate) name_offset: u32,
    pub(crate) name_len: u16,
    pub(crate) sub: SubId,
}

/// Readable description of one sub, as a builder hands it to the loader.
#[derive(Clone, Debug, PartialEq, Eq)]
pub struct SubInit {
    pub code_entry: u32,
    pub kind: SubKind,
    pub params: Vec<EclValueType>,
}

impl SubInit {
    /// A sub starting at `code_entry` with the given role and parameter types.
    pub fn new(code_entry: u32, kind: SubKind, params: Vec<EclValueType>) -> (r: Self)
        ensures
            r.code_entry == code_entry,
            r.kind == kind,
            r.params@ == params@,
    {
        SubInit { code_entry, kind, params }
    }
}

/// Readable description of one named entry (an `Async` sub reachable by name).
#[derive(Clone, Debug, PartialEq, Eq)]
pub struct EntryInit {
    pub name: String,
    pub sub: u16,
}

impl EntryInit {
    /// An entry called `name` that starts sub `sub`.
    pub fn new(name: &str, sub: u16) -> (r: Self)
        ensures
            r.name@ == name@,
            r.sub == sub,
    {
        EntryInit { name: name.to_owned(), sub }
    }
}

/// The UTF-8 bytes of an entry's name.
pub open spec fn entry_bytes(e: EntryInit) -> Seq<u8> {
    encode_utf8(e.name@)
}

/// Everything a builder hands the loader.
pub struct ImageParts {
    pub code: Vec<u32>,
    pub subs: Vec<SubInit>,
    pub entries: Vec<EntryInit>,
    pub root: Option<u16>,
    /// `(id, ip)` pairs, sorted by strictly ascending `id` by the builder.
    pub marks: Vec<(i32, u32)>,
    pub content_hash: u64,
}

/// Why a set of parts is not a valid image (and, for the builder-side
/// variants, why a builder refused to produce parts).
#[derive(Clone, Debug, PartialEq, Eq)]
pub enum ImageBuildError {
    TooManySubs { actual: usize },
    TooManyEntries { actual: usize },
    CodeTooLong { words: usize },
    NamePoolTooLarge { bytes: usize },
    NameTooLong { name: String, bytes: usize },
    InvalidEntryName { name: String },
    EntriesNotStrictlySorted,
    MissingRoot,
    MultipleRoots,
    RootIndexMismatch,
    RootHasParameters,
    CodeEntryOutOfRange { sub: usize, code_entry: u32 },
    TooManyParameters { sub: usize, actual: usize },
    ParameterTableTooLarge { actual: usize },
    EntrySubOutOfRange { entry: usize, sub: u16 },
    /// A mark id is zero or negative.
    MarkIdNonPositive,
    /// Mark ids are not strictly ascending (duplicates included).
    MarksNotStrictlySorted,
    /// A mark points at or past the end of the code.
    MarkIpOutOfBounds,
    EntryKindMismatch { entry: usize, kind: SubKind },
    MissingAsyncEntry { sub: usize },
    DuplicateAsyncEntry { sub: usize },
    DuplicateSubName { name: String },
    InvalidRootName { name: String },
    ReservedMainKind { kind: SubKind },
    InvalidBuilderRef,
    UndefinedSub { name: String },
    DuplicateDefinition { name: String },
    WrongTargetKind { target: String, expected: SubKind, actual: SubKind },
    WrongTargetArity { target: String, expected: u8, actual: u8 },
    OperandOverflow,
    /// The instruction word at `at` has bits set above its opcode byte.
    ReservedBits { at: u32 },
    /// The instruction word at `at` carries an opcode the VM does not know.
    BadOpcode { at: u32 },
    /// The operands of the instruction at `at` run past the end of the code.
    TruncatedInstruction { at: u32 },
    /// The jump at `at` targets a word outside the code.
    BadJumpTarget { at: u32 },
    /// The `CALL` at `at` does not name a call-only sub.
    BadCallTarget { at: u32 },
    /// The `SPAWN` at `at` does not name an async sub declaring its argument count.
    BadSpawnTarget { at: u32 },
    /// The local-variable access at `at` indexes past the locals.
    BadLocalIndex { at: u32 },
    /// The `SYS` at `at` names no implemented syscall.
    BadSyscall { at: u32 },
}

// ── byte-string order ───────────────────────────────────────────────────

/// Strict lexicographic order on byte strings (the order of `str`).
pub open spec fn bytes_lt(a: Seq<u8>, b: Seq<u8>) -> bool
    decreases a.len(),
{
    if a.len() == 0 {
        b.len() > 0
    } else if b.len() == 0 {
        false
    } else if a[0] != b[0] {
        a[0] < b[0]
    } else {
        bytes_lt(a.drop_first(), b.drop_first())
    }
}

/// Strict lexicographic order is transitive.
pub proof fn lemma_bytes_lt_transitive(a: Seq<u8>, b: Seq<u8>, c: Seq<u8>)
    requires
        bytes_lt(a, b),
        bytes_lt(b, c),
    ensures
        bytes_lt(a, c),
    decreases a.len(),
{
    if a.len() > 0 && b.len() > 0 && c.len() > 0 && a[0] == b[0] && b[0] == c[0] {
        lemma_bytes_lt_transitive(a.drop_first(), b.drop_first(), c.drop_first());
    }
}

/// Strict lexicographic order is irreflexive and asymmetric.
pub proof fn lemma_bytes_lt_asym(a: Seq<u8>, b: Seq<u8>)
    ensures
        bytes_lt(a, b) ==> !bytes_lt(b, a),
        !bytes_lt(a, a),
    decreases a.len(),
{
    if a.len() > 0 && b.len() > 0 && a[0] == b[0] {
        lemma_bytes_lt_asym(a.drop_first(), b.drop_first());
    }
    if a.len() > 0 {
        lemma_bytes_lt_asym(a.drop_first(), a.drop_first());
    }
}

/// Strict lexicographic order is total on distinct strings.
pub proof fn lemma_bytes_lt_total(a: Seq<u8>, b: Seq<u8>)
    ensures
        a != b ==> bytes_lt(a, b) || bytes_lt(b, a),
    decreases a.len(),
{
    if a.len() > 0 && b.len() > 0 && a[0] == b[0] {
        lemma_bytes_lt_total(a.drop_first(), b.drop_first());
        if a.drop_first() == b.drop_first() {
            assert(a =~= seq![a[0]] + a.drop_first());
            assert(b =~= seq![b[0]] + b.drop_first());
        }
    }
    if a.len() == 0 && b.len() == 0 {
        assert(a =~= b);
    }
}

/// Three-way comparison of `a` with `pool[off .. off + len]`: -1, 0 or 1.
fn compare_bytes(a: &[u8], pool: &Vec<u8>, off: usize, len: usize) -> (r: i8)
    requires
        off + len <= pool@.len(),
    ensures
        r == 0 <==> a@ == pool@.subrange(off as int, off + len),
        r < 0 <==> bytes_lt(a@, pool@.subrange(off as int, off + len)),
        r > 0 <==> bytes_lt(pool@.subrange(off as int, off + len), a@),
{
    let ghost b = pool@.subrange(off as int, off + len);
    let mut i: usize = 0;
    while i < a.len() && i < len
        invariant
            off + len <= pool.len(),
            b == pool@.subrange(off as int, off + len),
            i <= a@.len(),
            i <= len,
            a@.subrange(0, i as int) =~= b.subrange(0, i as int),
        decreases len - i,
    {
        if a[i] != pool[off + i] {
            proof {
                lemma_lt_at(a@, b, i as int);
                lemma_bytes_lt_asym(a@, b);
            }
            if a[i] < pool[off + i] {
                return -1;
            } else {
                return 1;
            }
        }
        i += 1;
    }
    proof {
        lemma_lt_prefix(a@, b, i as int);
        lemma_bytes_lt_asym(a@, b);
        if a@.len() == b.len() {
            assert(a@ =~= a@.subrange(0, i as int));
            assert(b =~= b.subrange(0, i as int));
        }
    }
    if a.len() == len {
        0
    } else if a.len() < len {
        -1
    } else {
        1
    }
}

/// Two strings that agree before `i` and differ at `i` are ordered by that byte.
proof fn lemma_lt_at(a: Seq<u8>, b: Seq<u8>, i: int)
    requires
        0 <= i < a.len(),
        i < b.len(),
        a.subrange(0, i) =~= b.subrange(0, i),
        a[i] != b[i],
    ensures
        bytes_lt(a, b) <==> a[i] < b[i],
        bytes_lt(b, a) <==> b[i] < a[i],
    decreases i,
{
    if i > 0 {
        assert(a[0] == a.subrange(0, i)[0]);
        assert(b[0] == b.subrange(0, i)[0]);
        assert(a.drop_first().subrange(0, i - 1) =~= a.subrange(0, i).drop_first());
        assert(b.drop_first().subrange(0, i - 1) =~= b.subrange(0, i).drop_first());
        lemma_lt_at(a.drop_first(), b.drop_first(), i - 1);
    }
}

/// Two strings with a common prefix of length `i`, one of which ends at `i`,
/// are ordered by length.
proof fn lemma_lt_prefix(a: Seq<u8>, b: Seq<u8>, i: int)
    requires
        0 <= i <= a.len(),
        i <= b.len(),
        i == a.len() || i == b.len(),
        a.subrange(0, i) =~= b.subrange(0, i),
    ensures
        bytes_lt(a, b) <==> a.len() < b.len(),
        bytes_lt(b, a) <==> b.len() < a.len(),
    decreases i,
{
    if i > 0 {
        assert(a[0] == a.subrange(0, i)[0]);
        assert(b[0] == b.subrange(0, i)[0]);
        assert(a.drop_first().subrange(0, i - 1) =~= a.subrange(0, i).drop_first());
        assert(b.drop_first().subrange(0, i - 1) =~= b.subrange(0, i).drop_first());
        lemma_lt_prefix(a.drop_first(), b.drop_first(), i - 1);
    }
}

// ── identifiers ─────────────────────────────────────────────────────────

/// An ASCII letter or underscore.
pub open spec fn is_ident_start(c: u8) -> bool {
    (97 <= c <= 122) || (65 <= c <= 90) || c == 95
}

/// An ASCII letter, digit or underscore.
pub open spec fn is_ident_continue(c: u8) -> bool {
    is_ident_start(c) || (48 <= c <= 57)
}

/// An ECL identifier: `[A-Za-z_][A-Za-z0-9_]*`, checked on bytes (so every
/// non-ASCII name is rejected).
pub open spec fn spec_valid_identifier(b: Seq<u8>) -> bool {
    &&& b.len() > 0
    &&& is_ident_start(b[0])
    &&& forall|i: int| 1 <= i < b.len() ==> is_ident_continue(#[trigger] b[i])
}

/// Whether `name` is a valid ECL identifier.
pub fn is_valid_identifier(name: &str) -> (r: bool)
    ensures
        r == spec_valid_identifier(name.spec_bytes()),
{
    valid_identifier_bytes(name.as_bytes())
}

fn valid_identifier_bytes(b: &[u8]) -> (r: bool)
    ensures
        r == spec_valid_identifier(b@),
{
    if b.len() == 0 {
        return false;
    }
    let c = b[0];
    if !((97 <= c && c <= 122) || (65 <= c && c <= 90) || c == 95) {
        return false;
    }
    let mut i: usize = 1;
    while i < b.len()
        invariant
            1 <= i <= b@.len(),
            forall|j: int| 1 <= j < i ==> is_ident_continue(#[trigger] b@[j]),
        decreases b@.len() - i,
    {
        let d = b[i];
        if !((97 <= d && d <= 122) || (65 <= d && d <= 90) || d == 95 || (48 <= d && d <= 57)) {
            return false;
        }
        i += 1;
    }
    true
}

/// The bytes of `"main"`, the reserved root name.
pub open spec fn main_bytes() -> Seq<u8> {
    seq![109u8, 97u8, 105u8, 110u8]
}

fn is_main_bytes(b: &[u8]) -> (r: bool)
    ensures
        r == (b@ == main_bytes()),
{
    if b.len() != 4 {
        return false;
    }
    let r = b[0] == 109 && b[1] == 97 && b[2] == 105 && b[3] == 110;
    if r {
        assert(b@ =~= main_bytes());
    }
    r
}


// ── the load-gate specification ─────────────────────────────────────────

/// A sub whose entry point lies outside the code or that declares more
/// parameters than a task has locals.
pub open spec fn sub_bad(s: SubInit, code_len: int) -> bool {
    s.code_entry >= code_len || s.params@.len() > MAX_PARAMS
}

/// Total parameter count of the first `k` subs.
pub open spec fn param_total(subs: Seq<SubInit>, k: int) -> int
    decreases k,
{
    if k <= 0 {
        0
    } else {
        param_total(subs, k - 1) + subs[k - 1].params@.len()
    }
}

/// The parameter types of the first `k` subs, concatenated in order.
pub open spec fn params_concat(subs: Seq<SubInit>, k: int) -> Seq<EclValueType>
    decreases k,
{
    if k <= 0 {
        Seq::empty()
    } else {
        params_concat(subs, k - 1) + subs[k - 1].params@
    }
}

/// Total name bytes of the first `k` entries.
pub open spec fn name_total(entries: Seq<EntryInit>, k: int) -> int
    decreases k,
{
    if k <= 0 {
        0
    } else {
        name_total(entries, k - 1) + entry_bytes(entries[k - 1]).len()
    }
}

/// An entry whose name is too long, is `main`, or is not an identifier.
pub open spec fn entry_name_bad(e: EntryInit) -> bool {
    entry_bytes(e).len() > 65535 || entry_bytes(e) == main_bytes() || !spec_valid_identifier(
        entry_bytes(e),
    )
}

/// Entry `k` names a sub that does not exist, is not `Async`, or was
/// already named by an earlier entry.
pub open spec fn entry_ref_bad(entries: Seq<EntryInit>, subs: Seq<SubInit>, k: int) -> bool {
    ||| entries[k].sub >= subs.len()
    ||| subs[entries[k].sub as int].kind != SubKind::Async
    ||| exists|j: int| 0 <= j < k && entries[j].sub == entries[k].sub
}

/// Sub `i` is `Async` but no entry names it.
pub open spec fn async_unnamed(entries: Seq<EntryInit>, subs: Seq<SubInit>, i: int) -> bool {
    subs[i].kind == SubKind::Async && forall|k: int|
        0 <= k < entries.len() ==> entries[k].sub != i
}

/// The error (if any) of the mark table against a code of `code_len` words.
pub open spec fn marks_error(m: Seq<(i32, u32)>, code_len: int) -> Option<ImageBuildError> {
    if exists|i: int| 0 <= i < m.len() && m[i].0 <= 0 {
        Some(ImageBuildError::MarkIdNonPositive)
    } else if !marks_adjacent_sorted(m) {
        Some(ImageBuildError::MarksNotStrictlySorted)
    } else if exists|i: int| 0 <= i < m.len() && m[i].1 >= code_len {
        Some(ImageBuildError::MarkIpOutOfBounds)
    } else {
        None
    }
}

/// Every mark id is smaller than the next one.
pub open spec fn marks_adjacent_sorted(m: Seq<(i32, u32)>) -> bool {
    forall|i: int| 0 <= i < m.len() - 1 ==> #[trigger] m[i].0 < m[i + 1].0
}

/// The parts describe the empty image (no code, subs, entries or root).
pub open spec fn is_empty_sentinel(p: ImageParts) -> bool {
    p.code@.len() == 0 && p.subs@.len() == 0 && p.entries@.len() == 0 && p.root is None
}

/// The error (if any) of the root designation: exactly one `Root` sub, the
/// one `root` names, with no parameters.
pub open spec fn root_error(subs: Seq<SubInit>, root: Option<u16>) -> Option<ImageBuildError> {
    if forall|i: int| 0 <= i < subs.len() ==> subs[i].kind != SubKind::Root {
        Some(ImageBuildError::MissingRoot)
    } else if exists|i: int, j: int|
        0 <= i < j < subs.len() && subs[i].kind == SubKind::Root && subs[j].kind
            == SubKind::Root {
        Some(ImageBuildError::MultipleRoots)
    } else if !(root matches Some(r) && r < subs.len() && subs[r as int].kind == SubKind::Root) {
        Some(ImageBuildError::RootIndexMismatch)
    } else if subs[root->0 as int].params@.len() > 0 {
        Some(ImageBuildError::RootHasParameters)
    } else {
        None
    }
}

/// The error (if any) of the per-sub checks: the first bad sub, reported by
/// its first failing check, then the flattened parameter table size.
pub open spec fn subs_error(subs: Seq<SubInit>, n: int) -> Option<ImageBuildError> {
    if exists|i: int| 0 <= i < subs.len() && sub_bad(subs[i], n) {
        let i = choose|i: int|
            0 <= i < subs.len() && sub_bad(subs[i], n) && forall|j: int|
                0 <= j < i ==> !sub_bad(subs[j], n);
        if subs[i].code_entry >= n {
            Some(ImageBuildError::CodeEntryOutOfRange { sub: i as usize, code_entry: subs[i].code_entry })
        } else {
            Some(ImageBuildError::TooManyParameters { sub: i as usize, actual: subs[i].params@.len() as usize })
        }
    } else if param_total(subs, subs.len() as int) > 65536 {
        Some(ImageBuildError::ParameterTableTooLarge { actual: param_total(subs, subs.len() as int) as usize })
    } else {
        None
    }
}

/// The first entry whose name is rejected, reported as too long or invalid.
pub open spec fn names_error(e: Seq<EntryInit>) -> Option<ImageBuildError> {
    if exists|k: int| 0 <= k < e.len() && entry_name_bad(e[k]) {
        let k = choose|k: int|
            0 <= k < e.len() && entry_name_bad(e[k]) && forall|j: int|
                0 <= j < k ==> !entry_name_bad(e[j]);
        if entry_bytes(e[k]).len() > 65535 {
            Some(ImageBuildError::NameTooLong { name: e[k].name, bytes: entry_bytes(e[k]).len() as usize })
        } else {
            Some(ImageBuildError::InvalidEntryName { name: e[k].name })
        }
    } else {
        None
    }
}

/// Every entry name is strictly smaller than the next one.
pub open spec fn entries_adjacent_sorted(e: Seq<EntryInit>) -> bool {
    forall|k: int|
        0 <= k < e.len() - 1 ==> bytes_lt(entry_bytes(#[trigger] e[k]), entry_bytes(e[k + 1]))
}

/// The first entry with a bad target, reported by its first failing check.
pub open spec fn refs_error(e: Seq<EntryInit>, subs: Seq<SubInit>) -> Option<ImageBuildError> {
    if exists|k: int| 0 <= k < e.len() && entry_ref_bad(e, subs, k) {
        let k = choose|k: int|
            0 <= k < e.len() && entry_ref_bad(e, subs, k) && forall|j: int|
                0 <= j < k ==> !entry_ref_bad(e, subs, j);
        if e[k].sub >= subs.len() {
            Some(ImageBuildError::EntrySubOutOfRange { entry: k as usize, sub: e[k].sub })
        } else if subs[e[k].sub as int].kind != SubKind::Async {
            Some(ImageBuildError::EntryKindMismatch { entry: k as usize, kind: subs[e[k].sub as int].kind })
        } else {
            Some(ImageBuildError::DuplicateAsyncEntry { sub: e[k].sub as usize })
        }
    } else {
        None
    }
}

/// The first `Async` sub that no entry names.
pub open spec fn coverage_error(e: Seq<EntryInit>, subs: Seq<SubInit>) -> Option<ImageBuildError> {
    if exists|i: int| 0 <= i < subs.len() && async_unnamed(e, subs, i) {
        let i = choose|i: int|
            0 <= i < subs.len() && async_unnamed(e, subs, i) && forall|j: int|
                0 <= j < i ==> !async_unnamed(e, subs, j);
        Some(ImageBuildError::MissingAsyncEntry { sub: i as usize })
    } else {
        None
    }
}

/// The name pool overflowing `u32` offsets, reported with the pool size at
/// the first entry that crosses the limit.
pub open spec fn pool_error(e: Seq<EntryInit>) -> Option<ImageBuildError> {
    if name_total(e, e.len() as int) > u32::MAX {
        let k = choose|k: int|
            #![trigger name_total(e, k)]
            0 <= k < e.len() && name_total(e, k) <= u32::MAX && name_total(e, k + 1) > u32::MAX;
        let total = name_total(e, k + 1);
        Some(
            ImageBuildError::NamePoolTooLarge {
                bytes: if total <= usize::MAX {
                    total as usize
                } else {
                    usize::MAX
                },
            },
        )
    } else {
        None
    }
}

/// The error (if any) of the entry table: names, order, targets, coverage of
/// every `Async` sub, and the size of the name pool, in that order.
pub open spec fn entries_error(e: Seq<EntryInit>, subs: Seq<SubInit>) -> Option<ImageBuildError> {
    if names_error(e) is Some {
        names_error(e)
    } else if !entries_adjacent_sorted(e) {
        Some(ImageBuildError::EntriesNotStrictlySorted)
    } else if refs_error(e, subs) is Some {
        refs_error(e, subs)
    } else if coverage_error(e, subs) is Some {
        coverage_error(e, subs)
    } else {
        pool_error(e)
    }
}

/// What the loader says of `p`: `None` when the parts form a valid image,
/// otherwise the first violated rule, checked in this order: table sizes,
/// the mark table, (the empty image is accepted here), the root, the subs,
/// the entries.
pub open spec fn build_error(p: ImageParts) -> Option<ImageBuildError> {
    if p.subs@.len() > 65536 {
        Some(ImageBuildError::TooManySubs { actual: p.subs@.len() as usize })
    } else if p.entries@.len() > 65536 {
        Some(ImageBuildError::TooManyEntries { actual: p.entries@.len() as usize })
    } else if p.code@.len() > u32::MAX {
        Some(ImageBuildError::CodeTooLong { words: p.code@.len() as usize })
    } else if marks_error(p.marks@, p.code@.len() as int) is Some {
        marks_error(p.marks@, p.code@.len() as int)
    } else if is_empty_sentinel(p) {
        None
    } else if root_error(p.subs@, p.root) is Some {
        root_error(p.subs@, p.root)
    } else if subs_error(p.subs@, p.code@.len() as int) is Some {
        subs_error(p.subs@, p.code@.len() as int)
    } else if entries_error(p.entries@, p.subs@) is Some {
        entries_error(p.entries@, p.subs@)
    } else {
        code_error_from(p.code@, p.subs@, 0)
    }
}

/// The error (if any) of the operands of instruction `op` at `at`: jump
/// targets inside the code, `CALL` naming a call-only sub, `SPAWN` naming an
/// async sub that declares exactly `b` parameters, local indices below
/// `LOCALS`, `SYS` naming an implemented syscall.
pub open spec fn operand_error(op: u8, at: int, a: u32, b: u32, code_len: int, subs: Seq<SubInit>) -> Option<ImageBuildError> {
    if (op == OP_JMP || op == OP_JZ) && a as int >= code_len {
        Some(ImageBuildError::BadJumpTarget { at: at as u32 })
    } else if op == OP_CALL && !(a < subs.len() && subs[a as int].kind == SubKind::CallOnly) {
        Some(ImageBuildError::BadCallTarget { at: at as u32 })
    } else if op == OP_SPAWN && !(a < subs.len() && subs[a as int].kind == SubKind::Async
        && subs[a as int].params@.len() == b) {
        Some(ImageBuildError::BadSpawnTarget { at: at as u32 })
    } else if (op == OP_PUSHL || op == OP_POPL) && a as int >= LOCALS {
        Some(ImageBuildError::BadLocalIndex { at: at as u32 })
    } else if op == OP_SYS && !(a <= 0xFFFF && crate::ecl::syscall::spec_syscall_implemented(a as u16)) {
        Some(ImageBuildError::BadSyscall { at: at as u32 })
    } else {
        None
    }
}

/// The first static fault of the code decoded from instruction boundary
/// `pc` on: each word at a boundary holds an implemented opcode in its low
/// byte and nothing above it, its operands lie inside the code and pass
/// `operand_error`, and the next boundary follows its operands.
pub open spec fn code_error_from(code: Seq<u32>, subs: Seq<SubInit>, pc: int) -> Option<ImageBuildError>
    decreases code.len() - pc,
{
    if pc < 0 || pc >= code.len() {
        None
    } else {
        let w = code[pc];
        let op = (w & 0xFFu32) as u8;
        let n = spec_arity(op) as int;
        if w >> 8u32 != 0 {
            Some(ImageBuildError::ReservedBits { at: pc as u32 })
        } else if !spec_op_implemented(op) {
            Some(ImageBuildError::BadOpcode { at: pc as u32 })
        } else if pc + n >= code.len() {
            Some(ImageBuildError::TruncatedInstruction { at: pc as u32 })
        } else if operand_error(
            op,
            pc,
            if n > 0 { code[pc + 1] } else { 0u32 },
            if n > 1 { code[pc + 2] } else { 0u32 },
            code.len() as int,
            subs,
        ) is Some {
            operand_error(
                op,
                pc,
                if n > 0 { code[pc + 1] } else { 0u32 },
                if n > 1 { code[pc + 2] } else { 0u32 },
                code.len() as int,
                subs,
            )
        } else {
            code_error_from(code, subs, pc + 1 + n)
        }
    }
}

/// The code passes the load gate's static checks.
pub open spec fn code_valid(code: Seq<u32>, subs: Seq<SubInit>) -> bool {
    code_error_from(code, subs, 0) is None
}

/// The compact record the loader stores for sub `i`: empty parameter lists
/// start at 0, others at the running total of earlier parameters.
pub open spec fn compact_sub(subs: Seq<SubInit>, i: int) -> RuntimeSubMeta {
    RuntimeSubMeta {
        code_entry: subs[i].code_entry,
        param_start: if subs[i].params@.len() == 0 {
            0
        } else {
            param_total(subs, i) as u16
        },
        param_count: subs[i].params@.len() as u8,
        kind: subs[i].kind,
    }
}


// ── the load-gate checks ────────────────────────────────────────────────

fn check_operands(op: u8, at: usize, a: u32, b: u32, code_len: usize, subs: &Vec<SubInit>) -> (r: Option<ImageBuildError>)
    requires
        at <= u32::MAX,
    ensures
        r == operand_error(op, at as int, a, b, code_len as int, subs@),
{
    if (op == OP_JMP || op == OP_JZ) && a as usize >= code_len {
        return Some(ImageBuildError::BadJumpTarget { at: at as u32 });
    }
    if op == OP_CALL && !((a as usize) < subs.len() && subs[a as usize].kind == SubKind::CallOnly) {
        return Some(ImageBuildError::BadCallTarget { at: at as u32 });
    }
    if op == OP_SPAWN && !((a as usize) < subs.len() && subs[a as usize].kind == SubKind::Async
        && subs[a as usize].params.len() as u64 == b as u64) {
        return Some(ImageBuildError::BadSpawnTarget { at: at as u32 });
    }
    if (op == OP_PUSHL || op == OP_POPL) && a as usize >= LOCALS {
        return Some(ImageBuildError::BadLocalIndex { at: at as u32 });
    }
    if op == OP_SYS && !(a <= 0xFFFF && crate::ecl::syscall::syscall_implemented(a as u16)) {
        return Some(ImageBuildError::BadSyscall { at: at as u32 });
    }
    None
}

fn check_code(code: &Vec<u32>, subs: &Vec<SubInit>) -> (r: Option<ImageBuildError>)
    requires
        code@.len() <= u32::MAX,
    ensures
        r == code_error_from(code@, subs@, 0),
{
    let mut pc: usize = 0;
    while pc < code.len()
        invariant
            pc <= code@.len(),
            code@.len() <= u32::MAX,
            code_error_from(code@, subs@, 0) == code_error_from(code@, subs@, pc as int),
        decreases code@.len() - pc,
    {
        let w = code[pc];
        if w >> 8 != 0 {
            return Some(ImageBuildError::ReservedBits { at: pc as u32 });
        }
        let op = (w & 0xFF) as u8;
        if !op_implemented(op) {
            return Some(ImageBuildError::BadOpcode { at: pc as u32 });
        }
        let n = arity(op) as usize;
        if n >= code.len() - pc {
            return Some(ImageBuildError::TruncatedInstruction { at: pc as u32 });
        }
        let a = if n > 0 { code[pc + 1] } else { 0u32 };
        let b = if n > 1 { code[pc + 2] } else { 0u32 };
        if let Some(e) = check_operands(op, pc, a, b, code.len(), subs) {
            return Some(e);
        }
        pc = pc + 1 + n;
    }
    None
}

fn check_marks(m: &Vec<(i32, u32)>, code_len: usize) -> (r: Option<ImageBuildError>)
    ensures
        r == marks_error(m@, code_len as int),
{
    let n = m.len();
    let mut i: usize = 0;
    while i < n
        invariant
            n == m@.len(),
            i <= n,
            forall|j: int| 0 <= j < i ==> m@[j].0 > 0,
        decreases n - i,
    {
        if m[i].0 <= 0 {
            assert(m@[i as int].0 <= 0);
            return Some(ImageBuildError::MarkIdNonPositive);
        }
        i += 1;
    }
    let mut i: usize = 0;
    while n > 0 && i < n - 1
        invariant
            n == m@.len(),
            i <= n,
            forall|j: int| 0 <= j < m@.len() ==> m@[j].0 > 0,
            forall|j: int| 0 <= j < i ==> #[trigger] m@[j].0 < m@[j + 1].0,
        decreases n - i,
    {
        if m[i].0 >= m[i + 1].0 {
            assert(!(m@[i as int].0 < m@[i + 1].0));
            return Some(ImageBuildError::MarksNotStrictlySorted);
        }
        i += 1;
    }
    assert(marks_adjacent_sorted(m@));
    let mut i: usize = 0;
    while i < n
        invariant
            n == m@.len(),
            i <= n,
            forall|j: int| 0 <= j < m@.len() ==> m@[j].0 > 0,
            marks_adjacent_sorted(m@),
            forall|j: int| 0 <= j < i ==> m@[j].1 < code_len,
        decreases n - i,
    {
        if m[i].1 as usize >= code_len {
            assert(m@[i as int].1 >= code_len);
            return Some(ImageBuildError::MarkIpOutOfBounds);
        }
        i += 1;
    }
    None
}

fn find_root(subs: &Vec<SubInit>, root: Option<u16>) -> (r: Result<usize, ImageBuildError>)
    ensures
        match r {
            Ok(i) => root_error(subs@, root) is None && root == Some(i as u16) && i < subs@.len(),
            Err(e) => root_error(subs@, root) == Some(e),
        },
{
    let n = subs.len();
    let mut found: Option<usize> = None;
    let mut i: usize = 0;
    while i < n
        invariant
            n == subs@.len(),
            i <= n,
            match found {
                None => forall|j: int| 0 <= j < i ==> subs@[j].kind != SubKind::Root,
                Some(f) => f < i && subs@[f as int].kind == SubKind::Root && forall|j: int|
                    0 <= j < i && j != f ==> subs@[j].kind != SubKind::Root,
            },
        decreases n - i,
    {
        if subs[i].kind == SubKind::Root {
            match found {
                None => {
                    found = Some(i);
                },
                Some(f) => {
                    assert(subs@[f as int].kind == SubKind::Root && subs@[i as int].kind
                        == SubKind::Root);
                    return Err(ImageBuildError::MultipleRoots);
                },
            }
        }
        i += 1;
    }
    let Some(f) = found else {
        return Err(ImageBuildError::MissingRoot);
    };
    assert(subs@[f as int].kind == SubKind::Root);
    match root {
        Some(r) => {
            if r as usize != f {
                return Err(ImageBuildError::RootIndexMismatch);
            }
        },
        None => {
            return Err(ImageBuildError::RootIndexMismatch);
        },
    }
    if subs[f].params.len() > 0 {
        return Err(ImageBuildError::RootHasParameters);
    }
    Ok(f)
}

/// Running parameter totals grow by each sub's parameter count.
proof fn lemma_param_total_step(subs: Seq<SubInit>, k: int)
    requires
        0 <= k,
    ensures
        param_total(subs, k + 1) == param_total(subs, k) + subs[k].params@.len(),
        param_total(subs, k) >= 0,
    decreases k,
{
    if k > 0 {
        lemma_param_total_step(subs, k - 1);
    }
}

/// A running total is bounded by `MAX_PARAMS` per sub when no sub exceeds it.
proof fn lemma_param_total_bound(subs: Seq<SubInit>, k: int)
    requires
        0 <= k <= subs.len(),
        forall|j: int| 0 <= j < k ==> subs[j].params@.len() <= MAX_PARAMS,
    ensures
        0 <= param_total(subs, k) <= k * MAX_PARAMS,
    decreases k,
{
    if k > 0 {
        lemma_param_total_bound(subs, k - 1);
    }
}

fn check_subs(subs: &Vec<SubInit>, code_len: usize) -> (r: Result<usize, ImageBuildError>)
    requires
        subs@.len() <= 65536,
    ensures
        match r {
            Ok(t) => subs_error(subs@, code_len as int) is None && t == param_total(
                subs@,
                subs@.len() as int,
            ),
            Err(e) => subs_error(subs@, code_len as int) == Some(e),
        },
{
    let n = subs.len();
    let mut total: usize = 0;
    let mut i: usize = 0;
    while i < n
        invariant
            n == subs@.len(),
            n <= 65536,
            i <= n,
            forall|j: int| 0 <= j < i ==> !sub_bad(subs@[j], code_len as int),
            total == param_total(subs@, i as int),
            total <= i * MAX_PARAMS,
        decreases n - i,
    {
        let ghost gi = i as int;
        proof {
            lemma_param_total_step(subs@, gi);
        }
        if subs[i].code_entry as usize >= code_len {
            assert(sub_bad(subs@[gi], code_len as int));
            let ghost w = choose|w: int|
                0 <= w < subs@.len() && sub_bad(subs@[w], code_len as int) && forall|j: int|
                    0 <= j < w ==> !sub_bad(subs@[j], code_len as int);
            assert(w == gi) by {
                if w < gi {
                } else if w > gi {
                    assert(!sub_bad(subs@[gi], code_len as int));
                }
            }
            return Err(
                ImageBuildError::CodeEntryOutOfRange { sub: i, code_entry: subs[i].code_entry },
            );
        }
        if subs[i].params.len() > MAX_PARAMS {
            assert(sub_bad(subs@[gi], code_len as int));
            let ghost w = choose|w: int|
                0 <= w < subs@.len() && sub_bad(subs@[w], code_len as int) && forall|j: int|
                    0 <= j < w ==> !sub_bad(subs@[j], code_len as int);
            assert(w == gi) by {
                if w < gi {
                } else if w > gi {
                    assert(!sub_bad(subs@[gi], code_len as int));
                }
            }
            return Err(
                ImageBuildError::TooManyParameters { sub: i, actual: subs[i].params.len() },
            );
        }
        total = total + subs[i].params.len();
        i += 1;
    }
    if total > 65536 {
        return Err(ImageBuildError::ParameterTableTooLarge { actual: total });
    }
    Ok(total)
}


/// Whether `a` sorts strictly before `b`.
fn bytes_less(a: &[u8], b: &[u8]) -> (r: bool)
    ensures
        r == bytes_lt(a@, b@),
{
    let mut i: usize = 0;
    while i < a.len() && i < b.len()
        invariant
            i <= a@.len(),
            i <= b@.len(),
            a@.subrange(0, i as int) =~= b@.subrange(0, i as int),
        decreases a@.len() - i,
    {
        if a[i] != b[i] {
            proof {
                lemma_lt_at(a@, b@, i as int);
            }
            return a[i] < b[i];
        }
        i += 1;
    }
    proof {
        lemma_lt_prefix(a@, b@, i as int);
    }
    a.len() < b.len()
}

fn check_names(e: &Vec<EntryInit>) -> (r: Option<ImageBuildError>)
    ensures
        r == names_error(e@),
{
    let n = e.len();
    let mut k: usize = 0;
    while k < n
        invariant
            n == e@.len(),
            k <= n,
            forall|j: int| 0 <= j < k ==> !entry_name_bad(#[trigger] e@[j]),
        decreases n - k,
    {
        let b = e[k].name.as_str().as_bytes();
        let ghost gk = k as int;
        proof {
            assert(b@ == entry_bytes(e@[gk]));
        }
        let too_long = b.len() > 65535;
        let bad = too_long || is_main_bytes(b) || !valid_identifier_bytes(b);
        if bad {
            assert(entry_name_bad(e@[gk]));
            let ghost w = choose|w: int|
                0 <= w < e@.len() && entry_name_bad(e@[w]) && forall|j: int|
                    0 <= j < w ==> !entry_name_bad(e@[j]);
            assert(w == gk) by {
                if w > gk {
                    assert(!entry_name_bad(e@[gk]));
                }
            }
            let name = e[k].name.clone();
            if too_long {
                return Some(ImageBuildError::NameTooLong { name, bytes: b.len() });
            } else {
                return Some(ImageBuildError::InvalidEntryName { name });
            }
        }
        k += 1;
    }
    None
}

fn check_sorted(e: &Vec<EntryInit>) -> (r: bool)
    ensures
        r == entries_adjacent_sorted(e@),
{
    let n = e.len();
    let mut k: usize = 0;
    while n > 0 && k < n - 1
        invariant
            n == e@.len(),
            k <= n,
            forall|j: int|
                0 <= j < k ==> bytes_lt(entry_bytes(#[trigger] e@[j]), entry_bytes(e@[j + 1])),
        decreases n - k,
    {
        let a = e[k].name.as_str().as_bytes();
        let b = e[k + 1].name.as_str().as_bytes();
        if !bytes_less(a, b) {
            assert(!bytes_lt(entry_bytes(e@[k as int]), entry_bytes(e@[k + 1])));
            return false;
        }
        k += 1;
    }
    true
}

/// Checks every entry's target; on success returns, for each sub, whether an
/// entry names it.
fn check_refs(e: &Vec<EntryInit>, subs: &Vec<SubInit>) -> (r: Result<Vec<bool>, ImageBuildError>)
    ensures
        match r {
            Ok(seen) => refs_error(e@, subs@) is None && seen@.len() == subs@.len() && forall|
                i: int,
            |
                0 <= i < subs@.len() ==> (#[trigger] seen@[i] <==> exists|k: int|
                    0 <= k < e@.len() && e@[k].sub == i),
            Err(x) => refs_error(e@, subs@) == Some(x),
        },
{
    let n = e.len();
    let ns = subs.len();
    let mut seen: Vec<bool> = Vec::new();
    let mut i: usize = 0;
    while i < ns
        invariant
            ns == subs@.len(),
            i <= ns,
            seen@.len() == i,
            forall|j: int| 0 <= j < i ==> !(#[trigger] seen@[j]),
        decreases ns - i,
    {
        seen.push(false);
        i += 1;
    }
    let mut k: usize = 0;
    while k < n
        invariant
            n == e@.len(),
            ns == subs@.len(),
            k <= n,
            seen@.len() == ns,
            forall|j: int| 0 <= j < k ==> !entry_ref_bad(e@, subs@, j),
            forall|s: int|
                0 <= s < ns ==> (#[trigger] seen@[s] <==> exists|j: int|
                    0 <= j < k && e@[j].sub == s),
        decreases n - k,
    {
        let ghost gk = k as int;
        let sub = e[k].sub;
        let bad: Option<ImageBuildError> = if sub as usize >= ns {
            Some(ImageBuildError::EntrySubOutOfRange { entry: k, sub })
        } else if subs[sub as usize].kind != SubKind::Async {
            Some(ImageBuildError::EntryKindMismatch { entry: k, kind: subs[sub as usize].kind })
        } else if seen[sub as usize] {
            Some(ImageBuildError::DuplicateAsyncEntry { sub: sub as usize })
        } else {
            None
        };
        if let Some(x) = bad {
            assert(entry_ref_bad(e@, subs@, gk));
            let ghost w = choose|w: int|
                0 <= w < e@.len() && entry_ref_bad(e@, subs@, w) && forall|j: int|
                    0 <= j < w ==> !entry_ref_bad(e@, subs@, j);
            assert(w == gk) by {
                if w > gk {
                    assert(!entry_ref_bad(e@, subs@, gk));
                }
            }
            return Err(x);
        }
        assert(!entry_ref_bad(e@, subs@, gk));
        seen.set(sub as usize, true);
        proof {
            assert forall|s: int| 0 <= s < ns implies (#[trigger] seen@[s] <==> exists|j: int|
                0 <= j < k + 1 && e@[j].sub == s) by {
                if s == sub as int {
                    assert(e@[gk].sub == s);
                } else {
                    if exists|j: int| 0 <= j < k + 1 && e@[j].sub == s {
                        let j = choose|j: int| 0 <= j < k + 1 && e@[j].sub == s;
                        assert(j != gk);
                    }
                }
            }
        }
        k += 1;
    }
    assert(!exists|k: int| 0 <= k < e@.len() && entry_ref_bad(e@, subs@, k));
    Ok(seen)
}

fn check_coverage(e: &Vec<EntryInit>, subs: &Vec<SubInit>, seen: &Vec<bool>) -> (r: Option<
    ImageBuildError,
>)
    requires
        seen@.len() == subs@.len(),
        forall|i: int|
            0 <= i < subs@.len() ==> (#[trigger] seen@[i] <==> exists|k: int|
                0 <= k < e@.len() && e@[k].sub == i),
    ensures
        r == coverage_error(e@, subs@),
{
    let ns = subs.len();
    let mut i: usize = 0;
    while i < ns
        invariant
            ns == subs@.len(),
            seen@.len() == ns,
            i <= ns,
            forall|s: int|
                0 <= s < ns ==> (#[trigger] seen@[s] <==> exists|k: int|
                    0 <= k < e@.len() && e@[k].sub == s),
            forall|j: int| 0 <= j < i ==> !async_unnamed(e@, subs@, j),
        decreases ns - i,
    {
        let ghost gi = i as int;
        if subs[i].kind == SubKind::Async && !seen[i] {
            assert(!exists|k: int| 0 <= k < e@.len() && e@[k].sub == gi);
            assert(async_unnamed(e@, subs@, gi));
            let ghost w = choose|w: int|
                0 <= w < subs@.len() && async_unnamed(e@, subs@, w) && forall|j: int|
                    0 <= j < w ==> !async_unnamed(e@, subs@, j);
            assert(w == gi) by {
                if w > gi {
                    assert(!async_unnamed(e@, subs@, gi));
                }
            }
            return Some(ImageBuildError::MissingAsyncEntry { sub: i });
        }
        if subs[i].kind == SubKind::Async {
            let ghost k = choose|k: int| 0 <= k < e@.len() && e@[k].sub == gi;
            assert(!async_unnamed(e@, subs@, gi));
        }
        i += 1;
    }
    None
}


// ── the frozen image ────────────────────────────────────────────────────

/// Script image: `code` is the flat word stream shared by all subs (a task's
/// `pc` is an absolute index into it). Construction compacts the readable
/// records into immutable run-time tables; names live in one byte pool.
#[derive(Debug, PartialEq, Eq)]
pub struct EclImage {
    code: Vec<u32>,
    subs: Vec<RuntimeSubMeta>,
    param_types: Vec<EclValueType>,
    entries: Vec<RuntimeEntryMeta>,
    entry_names: Vec<u8>,
    root: Option<SubId>,
    /// Sorted by strictly ascending id.
    marks: Vec<(i32, u32)>,
    content_hash: u64,
}

impl EclImage {
    /// The image's internal consistency, kept by every constructor: table
    /// sizes fit their `u16` index domains, every parameter range and name
    /// slice lies inside its pool, entries name existing subs and are sorted
    /// strictly by name, marks are sorted strictly by id, and the root (if
    /// any) is a valid sub.
    #[verifier::type_invariant]
    closed spec fn wf(self) -> bool {
        &&& self.subs@.len() <= 65536
        &&& self.entries@.len() <= 65536
        &&& forall|i: int|
            0 <= i < self.subs@.len() ==> #[trigger] self.subs@[i].param_start
                + self.subs@[i].param_count <= self.param_types@.len()
        &&& forall|k: int|
            0 <= k < self.entries@.len() ==> #[trigger] self.entries@[k].name_offset
                + self.entries@[k].name_len <= self.entry_names@.len()
        &&& forall|k: int|
            0 <= k < self.entries@.len() ==> (#[trigger] self.entries@[k]).sub@
                < self.subs@.len()
        &&& forall|j: int, k: int|
            0 <= j < k < self.entries@.len() ==> bytes_lt(
                #[trigger] self.spec_entry_name(j),
                #[trigger] self.spec_entry_name(k),
            )
        &&& forall|j: int, k: int|
            0 <= j < k < self.marks@.len() ==> (#[trigger] self.marks@[j]).0 < (
            #[trigger] self.marks@[k]).0
        &&& (self.root matches Some(r) ==> r@ < self.subs@.len())
        &&& forall|i: int| 0 <= i < self.subs@.len() ==> #[trigger] self.subs@[i].param_count <= MAX_PARAMS
    }

    /// The code words.
    pub closed spec fn spec_code(&self) -> Seq<u32> {
        self.code@
    }

    /// The compact sub table.
    pub closed spec fn spec_subs(&self) -> Seq<RuntimeSubMeta> {
        self.subs@
    }

    /// The flattened parameter-type table.
    pub closed spec fn spec_param_types(&self) -> Seq<EclValueType> {
        self.param_types@
    }

    /// The declared parameter types of sub `i`.
    pub closed spec fn spec_sub_params(&self, i: int) -> Seq<EclValueType> {
        self.param_types@.subrange(
            self.subs@[i].param_start as int,
            self.subs@[i].param_start + self.subs@[i].param_count,
        )
    }

    /// Number of named entries.
    pub closed spec fn spec_entry_count(&self) -> nat {
        self.entries@.len()
    }

    /// The name bytes of entry `k`.
    pub closed spec fn spec_entry_name(&self, k: int) -> Seq<u8> {
        self.entry_names@.subrange(
            self.entries@[k].name_offset as int,
            self.entries@[k].name_offset + self.entries@[k].name_len,
        )
    }

    /// The sub entry `k` starts.
    pub closed spec fn spec_entry_sub(&self, k: int) -> SubId {
        self.entries@[k].sub
    }

    /// The root sub, if the image has one.
    pub closed spec fn spec_root(&self) -> Option<SubId> {
        self.root
    }

    /// The mark table.
    pub closed spec fn spec_marks(&self) -> Seq<(i32, u32)> {
        self.marks@
    }

    /// The content hash recorded at build time.
    pub closed spec fn spec_content_hash(&self) -> u64 {
        self.content_hash
    }

    /// The image with no code, no subs, no entries and no root.
    pub fn empty() -> (r: EclImage)
        ensures
            r.spec_code().len() == 0,
            r.spec_subs().len() == 0,
            r.spec_param_types().len() == 0,
            r.spec_entry_count() == 0,
            r.spec_root() is None,
            r.spec_marks().len() == 0,
            r.spec_content_hash() == 0,
    {
        EclImage {
            code: Vec::new(),
            subs: Vec::new(),
            param_types: Vec::new(),
            entries: Vec::new(),
            entry_names: Vec::new(),
            root: None,
            marks: Vec::new(),
            content_hash: 0,
        }
    }
}

/// The image a valid set of parts freezes into.
pub open spec fn image_matches(img: EclImage, p: ImageParts) -> bool {
    &&& img.spec_code() == p.code@
    &&& img.spec_subs().len() == p.subs@.len()
    &&& forall|i: int|
        0 <= i < p.subs@.len() ==> #[trigger] img.spec_subs()[i] == compact_sub(p.subs@, i)
    &&& img.spec_param_types() == params_concat(p.subs@, p.subs@.len() as int)
    &&& img.spec_entry_count() == p.entries@.len()
    &&& forall|k: int|
        0 <= k < p.entries@.len() ==> #[trigger] img.spec_entry_name(k) == entry_bytes(
            p.entries@[k],
        ) && img.spec_entry_sub(k)@ == p.entries@[k].sub
    &&& img.spec_marks() == p.marks@
    &&& img.spec_content_hash() == p.content_hash
    &&& if is_empty_sentinel(p) {
        img.spec_root() is None
    } else {
        img.spec_root() matches Some(r) && p.root == Some(r@)
    }
}


proof fn lemma_params_concat_len(subs: Seq<SubInit>, k: int)
    requires
        0 <= k,
    ensures
        params_concat(subs, k).len() == param_total(subs, k),
    decreases k,
{
    if k > 0 {
        lemma_params_concat_len(subs, k - 1);
    }
}

proof fn lemma_param_total_mono(subs: Seq<SubInit>, j: int, k: int)
    requires
        0 <= j <= k,
    ensures
        param_total(subs, j) <= param_total(subs, k),
    decreases k - j,
{
    if j < k {
        lemma_param_total_mono(subs, j, k - 1);
        lemma_param_total_step(subs, k - 1);
    }
}

proof fn lemma_name_total_step(e: Seq<EntryInit>, k: int)
    requires
        0 <= k,
    ensures
        name_total(e, k + 1) == name_total(e, k) + entry_bytes(e[k]).len(),
        name_total(e, k) >= 0,
    decreases k,
{
    if k > 0 {
        lemma_name_total_step(e, k - 1);
    }
}

proof fn lemma_name_total_mono(e: Seq<EntryInit>, j: int, k: int)
    requires
        0 <= j <= k,
    ensures
        name_total(e, j) <= name_total(e, k),
    decreases k - j,
{
    if j < k {
        lemma_name_total_mono(e, j, k - 1);
        lemma_name_total_step(e, k - 1);
    }
}

fn build_subs(subs: &Vec<SubInit>, total: usize) -> (r: (Vec<RuntimeSubMeta>, Vec<EclValueType>))
    requires
        subs@.len() <= 65536,
        forall|j: int| 0 <= j < subs@.len() ==> subs@[j].params@.len() <= MAX_PARAMS,
        total == param_total(subs@, subs@.len() as int),
        total <= 65536,
    ensures
        r.0@.len() == subs@.len(),
        forall|i: int| 0 <= i < subs@.len() ==> #[trigger] r.0@[i] == compact_sub(subs@, i),
        r.1@ == params_concat(subs@, subs@.len() as int),
{
    let n = subs.len();
    let mut metas: Vec<RuntimeSubMeta> = Vec::new();
    let mut params: Vec<EclValueType> = Vec::new();
    let mut i: usize = 0;
    while i < n
        invariant
            n == subs@.len(),
            n <= 65536,
            i <= n,
            forall|j: int| 0 <= j < subs@.len() ==> subs@[j].params@.len() <= MAX_PARAMS,
            total == param_total(subs@, n as int),
            total <= 65536,
            metas@.len() == i,
            forall|j: int| 0 <= j < i ==> #[trigger] metas@[j] == compact_sub(subs@, j),
            params@ == params_concat(subs@, i as int),
        decreases n - i,
    {
        let ghost gi = i as int;
        proof {
            lemma_params_concat_len(subs@, gi);
            lemma_param_total_step(subs@, gi);
            lemma_param_total_mono(subs@, gi + 1, n as int);
        }
        let count = subs[i].params.len();
        let start: u16 = if count == 0 {
            0
        } else {
            params.len() as u16
        };
        let mut k: usize = 0;
        let ghost base = params@;
        while k < count
            invariant
                n == subs@.len(),
                i < n,
                gi == i,
                count == subs@[gi].params@.len(),
                k <= count,
                params@ == base + subs@[gi].params@.subrange(0, k as int),
            decreases count - k,
        {
            params.push(subs[i].params[k]);
            proof {
                assert(subs@[gi].params@.subrange(0, k + 1) =~= subs@[gi].params@.subrange(
                    0,
                    k as int,
                ).push(subs@[gi].params@[k as int]));
            }
            k += 1;
        }
        proof {
            assert(subs@[gi].params@.subrange(0, count as int) =~= subs@[gi].params@);
        }
        metas.push(
            RuntimeSubMeta {
                code_entry: subs[i].code_entry,
                param_start: start,
                param_count: count as u8,
                kind: subs[i].kind,
            },
        );
        i += 1;
    }
    (metas, params)
}

/// The name bytes of the first `k` entries, concatenated.
pub open spec fn names_concat(e: Seq<EntryInit>, k: int) -> Seq<u8>
    decreases k,
{
    if k <= 0 {
        Seq::empty()
    } else {
        names_concat(e, k - 1) + entry_bytes(e[k - 1])
    }
}

fn build_entries(e: &Vec<EntryInit>) -> (r: Result<(Vec<RuntimeEntryMeta>, Vec<u8>), ImageBuildError>)
    requires
        e@.len() <= 65536,
        forall|k: int| 0 <= k < e@.len() ==> entry_bytes(e@[k]).len() <= 65535,
    ensures
        match r {
            Ok((m, pool)) => {
                &&& pool_error(e@) is None
                &&& m@.len() == e@.len()
                &&& pool@.len() == name_total(e@, e@.len() as int)
                &&& forall|k: int|
                    0 <= k < e@.len() ==> {
                        &&& (#[trigger] m@[k]).name_offset == name_total(e@, k)
                        &&& m@[k].name_len == entry_bytes(e@[k]).len()
                        &&& m@[k].sub@ == e@[k].sub
                        &&& m@[k].name_offset + m@[k].name_len <= pool@.len()
                        &&& pool@.subrange(
                            m@[k].name_offset as int,
                            m@[k].name_offset + m@[k].name_len,
                        ) == entry_bytes(e@[k])
                    }
            },
            Err(x) => pool_error(e@) == Some(x),
        },
{
    let n = e.len();
    let mut metas: Vec<RuntimeEntryMeta> = Vec::new();
    let mut pool: Vec<u8> = Vec::new();
    let mut k: usize = 0;
    while k < n
        invariant
            n == e@.len(),
            n <= 65536,
            k <= n,
            forall|j: int| 0 <= j < e@.len() ==> entry_bytes(e@[j]).len() <= 65535,
            pool@.len() == name_total(e@, k as int),
            pool@.len() <= u32::MAX,
            metas@.len() == k,
            forall|j: int|
                0 <= j < k ==> {
                    &&& (#[trigger] metas@[j]).name_offset == name_total(e@, j)
                    &&& metas@[j].name_len == entry_bytes(e@[j]).len()
                    &&& metas@[j].sub@ == e@[j].sub
                    &&& metas@[j].name_offset + metas@[j].name_len <= pool@.len()
                    &&& pool@.subrange(
                        metas@[j].name_offset as int,
                        metas@[j].name_offset + metas@[j].name_len,
                    ) == entry_bytes(e@[j])
                },
        decreases n - k,
    {
        let ghost gk = k as int;
        proof {
            lemma_name_total_step(e@, gk);
        }
        let b = e[k].name.as_str().as_bytes();
        assert(b@ == entry_bytes(e@[gk]));
        let offset = pool.len();
        if b.len() > 0xFFFF_FFFF - offset {
            let new_len = match offset.checked_add(b.len()) {
                Some(v) => v,
                None => usize::MAX,
            };
            proof {
                assert(name_total(e@, gk + 1) > u32::MAX);
                lemma_name_total_mono(e@, gk + 1, n as int);
                let w = choose|w: int|
                    #![trigger name_total(e@, w)]
                    0 <= w < e@.len() && name_total(e@, w) <= u32::MAX && name_total(e@, w + 1)
                        > u32::MAX;
                assert(w == gk) by {
                    if w < gk {
                        lemma_name_total_mono(e@, w + 1, gk);
                    } else if w > gk {
                        lemma_name_total_mono(e@, gk + 1, w);
                    }
                }
            }
            return Err(ImageBuildError::NamePoolTooLarge { bytes: new_len });
        }
        let ghost before = pool@;
        let mut t: usize = 0;
        while t < b.len()
            invariant
                t <= b@.len(),
                pool@ == before + b@.subrange(0, t as int),
            decreases b@.len() - t,
        {
            pool.push(b[t]);
            proof {
                assert(b@.subrange(0, t + 1) =~= b@.subrange(0, t as int).push(b@[t as int]));
            }
            t += 1;
        }
        proof {
            assert(b@.subrange(0, b@.len() as int) =~= b@);
            assert(pool@.subrange(offset as int, offset + b@.len()) =~= b@);
            assert forall|j: int| 0 <= j < gk implies pool@.subrange(
                (#[trigger] metas@[j]).name_offset as int,
                metas@[j].name_offset + metas@[j].name_len,
            ) == entry_bytes(e@[j]) by {
                assert(pool@.subrange(
                    metas@[j].name_offset as int,
                    metas@[j].name_offset + metas@[j].name_len,
                ) =~= before.subrange(
                    metas@[j].name_offset as int,
                    metas@[j].name_offset + metas@[j].name_len,
                ));
            }
        }
        metas.push(
            RuntimeEntryMeta {
                name_offset: offset as u32,
                name_len: b.len() as u16,
                sub: SubId(e[k].sub),
            },
        );
        k += 1;
    }
    Ok((metas, pool))
}


proof fn lemma_marks_sorted(m: Seq<(i32, u32)>)
    requires
        marks_adjacent_sorted(m),
    ensures
        forall|j: int, k: int| 0 <= j < k < m.len() ==> (#[trigger] m[j]).0 < (#[trigger] m[k]).0,
{
    assert forall|j: int, k: int| 0 <= j < k < m.len() implies (#[trigger] m[j]).0 < (
    #[trigger] m[k]).0 by {
        lemma_marks_sorted_gap(m, j, k);
    }
}

proof fn lemma_marks_sorted_gap(m: Seq<(i32, u32)>, j: int, k: int)
    requires
        marks_adjacent_sorted(m),
        0 <= j < k < m.len(),
    ensures
        m[j].0 < m[k].0,
    decreases k - j,
{
    assert(m[k - 1].0 < m[k].0);
    if j < k - 1 {
        lemma_marks_sorted_gap(m, j, k - 1);
    }
}

proof fn lemma_entries_sorted_gap(e: Seq<EntryInit>, j: int, k: int)
    requires
        entries_adjacent_sorted(e),
        0 <= j < k < e.len(),
    ensures
        bytes_lt(entry_bytes(e[j]), entry_bytes(e[k])),
    decreases k - j,
{
    assert(bytes_lt(entry_bytes(e[k - 1]), entry_bytes(e[k])));
    if j < k - 1 {
        lemma_entries_sorted_gap(e, j, k - 1);
        lemma_bytes_lt_transitive(entry_bytes(e[j]), entry_bytes(e[k - 1]), entry_bytes(e[k]));
    }
}

impl EclImage {
    /// The load gate. Checks, in order: table sizes (subs and entries fit a
    /// `u16` index, code fits `u32` positions); the mark table (ids positive,
    /// strictly ascending, positions inside the code); then accepts the exact
    /// empty image; then requires exactly one `Root` sub, named by `root`,
    /// without parameters; every sub's entry point inside the code and at
    /// most 64 parameters, at most 65536 in total; entry names that are
    /// identifiers other than `main`, at most 65535 bytes, strictly sorted;
    /// entries that each name a distinct `Async` sub, every `Async` sub named;
    /// a name pool addressable by `u32`; last, the code itself
    /// (`code_valid`: every instruction decodes, with legal operands and
    /// targets). The first violation is the error; otherwise the parts are
    /// frozen into compact tables.
    pub fn try_from_parts(parts: ImageParts) -> (r: Result<EclImage, ImageBuildError>)
        ensures
            match r {
                Ok(img) => build_error(parts) is None && image_matches(img, parts),
                Err(e) => build_error(parts) == Some(e),
            },
    {
        if parts.subs.len() > 65536 {
            return Err(ImageBuildError::TooManySubs { actual: parts.subs.len() });
        }
        if parts.entries.len() > 65536 {
            return Err(ImageBuildError::TooManyEntries { actual: parts.entries.len() });
        }
        if parts.code.len() as u64 > 0xFFFF_FFFFu64 {
            return Err(ImageBuildError::CodeTooLong { words: parts.code.len() });
        }
        if let Some(e) = check_marks(&parts.marks, parts.code.len()) {
            return Err(e);
        }
        if parts.code.len() == 0 && parts.subs.len() == 0 && parts.entries.len() == 0
            && parts.root.is_none() {
            proof {
                if parts.marks@.len() > 0 {
                    assert(parts.marks@[0].1 >= parts.code@.len());
                }
                assert(parts.code@ =~= Seq::<u32>::empty());
                assert(parts.marks@ =~= Seq::<(i32, u32)>::empty());
                assert(params_concat(parts.subs@, 0) =~= Seq::<EclValueType>::empty());
            }
            return Ok(
                EclImage {
                    code: Vec::new(),
                    subs: Vec::new(),
                    param_types: Vec::new(),
                    entries: Vec::new(),
                    entry_names: Vec::new(),
                    root: None,
                    marks: Vec::new(),
                    content_hash: parts.content_hash,
                },
            );
        }
        let root_index = match find_root(&parts.subs, parts.root) {
            Ok(i) => i,
            Err(e) => {
                return Err(e);
            },
        };
        let total = match check_subs(&parts.subs, parts.code.len()) {
            Ok(t) => t,
            Err(e) => {
                return Err(e);
            },
        };
        if let Some(e) = check_names(&parts.entries) {
            return Err(e);
        }
        if !check_sorted(&parts.entries) {
            return Err(ImageBuildError::EntriesNotStrictlySorted);
        }
        let seen = match check_refs(&parts.entries, &parts.subs) {
            Ok(s) => s,
            Err(e) => {
                return Err(e);
            },
        };
        if let Some(e) = check_coverage(&parts.entries, &parts.subs, &seen) {
            return Err(e);
        }
        proof {
            assert forall|j: int| 0 <= j < parts.subs@.len() implies parts.subs@[j].params@.len()
                <= MAX_PARAMS by {
                assert(!sub_bad(parts.subs@[j], parts.code@.len() as int));
            }
            assert forall|k: int| 0 <= k < parts.entries@.len() implies entry_bytes(
                parts.entries@[k],
            ).len() <= 65535 by {
                assert(!entry_name_bad(parts.entries@[k]));
            }
        }
        let (metas, params) = build_subs(&parts.subs, total);
        let (emetas, pool) = match build_entries(&parts.entries) {
            Ok(x) => x,
            Err(e) => {
                return Err(e);
            },
        };
        if let Some(e) = check_code(&parts.code, &parts.subs) {
            return Err(e);
        }
        let ghost subs = parts.subs@;
        let ghost ents = parts.entries@;
        proof {
            lemma_params_concat_len(subs, subs.len() as int);
            assert forall|i: int| 0 <= i < subs.len() implies #[trigger] metas@[i].param_start
                + metas@[i].param_count <= params@.len() by {
                lemma_param_total_step(subs, i);
                lemma_param_total_mono(subs, i + 1, subs.len() as int);
            }
            lemma_marks_sorted(parts.marks@);
            assert forall|j: int, k: int| 0 <= j < k < ents.len() implies bytes_lt(
                pool@.subrange(
                    emetas@[j].name_offset as int,
                    emetas@[j].name_offset + emetas@[j].name_len,
                ),
                pool@.subrange(
                    emetas@[k].name_offset as int,
                    emetas@[k].name_offset + emetas@[k].name_len,
                ),
            ) by {
                assert(emetas@[j] == emetas@[j]);
                assert(emetas@[k] == emetas@[k]);
                lemma_entries_sorted_gap(ents, j, k);
            }
            assert forall|k: int| 0 <= k < ents.len() implies (#[trigger] emetas@[k]).sub@
                < metas@.len() by {
                assert(!entry_ref_bad(ents, subs, k));
            }
            assert(root_index < metas@.len());
            assert forall|k: int| 0 <= k < ents.len() implies #[trigger] emetas@[k].name_offset
                + emetas@[k].name_len <= pool@.len() by {
                assert(emetas@[k] == emetas@[k]);
            }
        }
        let img = EclImage {
            code: parts.code,
            subs: metas,
            param_types: params,
            entries: emetas,
            entry_names: pool,
            root: Some(SubId(root_index as u16)),
            marks: parts.marks,
            content_hash: parts.content_hash,
        };
        proof {
            assert forall|k: int| 0 <= k < ents.len() implies #[trigger] img.spec_entry_name(k)
                == entry_bytes(ents[k]) && img.spec_entry_sub(k)@ == ents[k].sub by {
                assert(emetas@[k] == emetas@[k]);
            }
        }
        Ok(img)
    }
}


impl EclImage {
    /// The code words.
    pub fn code(&self) -> (r: &[u32])
        ensures
            r@ == self.spec_code(),
    {
        self.code.as_slice()
    }

    /// The content hash recorded at build time.
    pub fn content_hash(&self) -> (r: u64)
        ensures
            r == self.spec_content_hash(),
    {
        self.content_hash
    }

    /// Number of subs.
    pub fn sub_count(&self) -> (r: usize)
        ensures
            r == self.spec_subs().len(),
            r <= 65536,
    {
        proof {
            use_type_invariant(self);
        }
        self.subs.len()
    }

    /// The sub with raw index `raw`, if the image has that many subs.
    pub fn sub_id(&self, raw: u16) -> (r: Option<SubId>)
        ensures
            match r {
                Some(s) => s@ == raw && raw < self.spec_subs().len(),
                None => raw >= self.spec_subs().len(),
            },
    {
        if (raw as usize) < self.subs.len() {
            Some(SubId(raw))
        } else {
            None
        }
    }

    /// The root sub, if any.
    pub fn root(&self) -> (r: Option<SubId>)
        ensures
            r == self.spec_root(),
            r matches Some(s) ==> s@ < self.spec_subs().len(),
    {
        proof {
            use_type_invariant(self);
        }
        self.root
    }

    /// The run-time record of `sub`, if it exists.
    pub fn sub_meta(&self, sub: SubId) -> (r: Option<&RuntimeSubMeta>)
        ensures
            match r {
                Some(m) => sub@ < self.spec_subs().len() && *m == self.spec_subs()[sub@ as int]
                    && m.param_count <= MAX_PARAMS,
                None => sub@ >= self.spec_subs().len(),
            },
    {
        proof {
            use_type_invariant(self);
        }
        if (sub.0 as usize) < self.subs.len() {
            Some(&self.subs[sub.0 as usize])
        } else {
            None
        }
    }

    /// The declared parameter types of `sub`, if it exists.
    pub fn param_types(&self, sub: SubId) -> (r: Option<&[EclValueType]>)
        ensures
            match r {
                Some(p) => sub@ < self.spec_subs().len() && p@ == self.spec_sub_params(sub@ as int)
                    && p@.len() == self.spec_subs()[sub@ as int].param_count,
                None => sub@ >= self.spec_subs().len(),
            },
    {
        proof {
            use_type_invariant(self);
        }
        if (sub.0 as usize) >= self.subs.len() {
            return None;
        }
        let meta = self.subs[sub.0 as usize];
        let start = meta.param_start as usize;
        let end = start + meta.param_count as usize;
        Some(&self.param_types.as_slice()[start..end])
    }

    /// Resolves a spawnable entry by name. `"main"` is refused (the root
    /// starts only through `start_main`); any other name is looked up by
    /// binary search in the sorted entry table.
    pub fn resolve_entry<'a>(&'a self, name: &str) -> (r: Result<ResolvedEntry<'a>, ResolveError>)
        ensures
            name.spec_bytes() == main_bytes() ==> r == Err::<ResolvedEntry, _>(
                ResolveError::RootRequiresStartMain,
            ),
            name.spec_bytes() != main_bytes() ==> match r {
                Ok(e) => e.spec_image() == self && e.spec_id()@ < self.spec_entry_count()
                    && self.spec_entry_name(e.spec_id()@ as int) == name.spec_bytes()
                    && forall|k: int| 0 <= k < self.spec_entry_count() && #[trigger] self.spec_entry_name(k)
                        == name.spec_bytes() ==> k == e.spec_id()@,
                Err(x) => x == ResolveError::UnknownEntry && forall|k: int|
                    0 <= k < self.spec_entry_count() ==> #[trigger] self.spec_entry_name(k)
                        != name.spec_bytes(),
            },
    {
        proof {
            use_type_invariant(self);
        }
        let b = name.as_bytes();
        if is_main_bytes(b) {
            return Err(ResolveError::RootRequiresStartMain);
        }
        let mut lo: usize = 0;
        let mut hi: usize = self.entries.len();
        while lo < hi
            invariant
                hi <= self.entries@.len(),
                self.entries@.len() <= 65536,
                lo <= hi,
                b@ == name.spec_bytes(),
                b@ != main_bytes(),
                forall|k: int|
                    0 <= k < self.entries@.len() ==> #[trigger] self.entries@[k].name_offset
                        + self.entries@[k].name_len <= self.entry_names@.len(),
                forall|j: int, k: int|
                    0 <= j < k < self.entries@.len() ==> bytes_lt(
                        #[trigger] self.spec_entry_name(j),
                        #[trigger] self.spec_entry_name(k),
                    ),
                forall|k: int| 0 <= k < lo ==> bytes_lt(#[trigger] self.spec_entry_name(k), b@),
                forall|k: int|
                    hi <= k < self.entries@.len() ==> bytes_lt(
                        b@,
                        #[trigger] self.spec_entry_name(k),
                    ),
            decreases hi - lo,
        {
            let mid = lo + (hi - lo) / 2;
            let m = self.entries[mid];
            let c = compare_bytes(b, &self.entry_names, m.name_offset as usize, m.name_len as usize);
            assert(self.entries@[mid as int] == m);
            if c == 0 {
                proof {
                    assert forall|k: int| 0 <= k < self.spec_entry_count() && #[trigger] self.spec_entry_name(k)
                        == name.spec_bytes() implies k == mid by {
                        lemma_bytes_lt_asym(b@, b@);
                        if k < mid {
                            assert(bytes_lt(self.spec_entry_name(k), self.spec_entry_name(mid as int)));
                        } else if k > mid {
                            assert(bytes_lt(self.spec_entry_name(mid as int), self.spec_entry_name(k)));
                        }
                    }
                }
                return Ok(ResolvedEntry { image: self, id: EntryId(mid as u16) });
            } else if c > 0 {
                proof {
                    assert forall|k: int| 0 <= k < mid + 1 implies bytes_lt(
                        #[trigger] self.spec_entry_name(k),
                        b@,
                    ) by {
                        if k < mid {
                            lemma_bytes_lt_transitive(
                                self.spec_entry_name(k),
                                self.spec_entry_name(mid as int),
                                b@,
                            );
                        }
                    }
                }
                lo = mid + 1;
            } else {
                proof {
                    assert forall|k: int| mid <= k < self.entries@.len() implies bytes_lt(
                        b@,
                        #[trigger] self.spec_entry_name(k),
                    ) by {
                        if k > mid {
                            lemma_bytes_lt_transitive(
                                b@,
                                self.spec_entry_name(mid as int),
                                self.spec_entry_name(k),
                            );
                        }
                    }
                }
                hi = mid;
            }
        }
        proof {
            assert forall|k: int| 0 <= k < self.spec_entry_count() implies #[trigger] self.spec_entry_name(
                k,
            ) != name.spec_bytes() by {
                lemma_bytes_lt_asym(b@, b@);
            }
        }
        Err(ResolveError::UnknownEntry)
    }

    /// The code position of mid-stage mark `id`, found by binary search in
    /// the sorted mark table.
    pub fn resolve_mark(&self, id: i32) -> (r: Option<u32>)
        ensures
            match r {
                Some(ip) => exists|k: int|
                    0 <= k < self.spec_marks().len() && #[trigger] self.spec_marks()[k] == (
                    id,
                    ip,
                    ),
                None => forall|k: int|
                    0 <= k < self.spec_marks().len() ==> (#[trigger] self.spec_marks()[k]).0
                        != id,
            },
    {
        proof {
            use_type_invariant(self);
        }
        let mut lo: usize = 0;
        let mut hi: usize = self.marks.len();
        while lo < hi
            invariant
                hi <= self.marks@.len(),
                lo <= hi,
                forall|j: int, k: int|
                    0 <= j < k < self.marks@.len() ==> (#[trigger] self.marks@[j]).0 < (
                    #[trigger] self.marks@[k]).0,
                forall|k: int| 0 <= k < lo ==> (#[trigger] self.marks@[k]).0 < id,
                forall|k: int| hi <= k < self.marks@.len() ==> (#[trigger] self.marks@[k]).0 > id,
            decreases hi - lo,
        {
            let mid = lo + (hi - lo) / 2;
            let m = self.marks[mid];
            if m.0 == id {
                assert(self.spec_marks()[mid as int] == (id, m.1));
                return Some(m.1);
            } else if m.0 < id {
                lo = mid + 1;
            } else {
                hi = mid;
            }
        }
        None
    }
}

impl Default for EclImage {
    fn default() -> (r: EclImage)
        ensures
            r.spec_code().len() == 0,
            r.spec_subs().len() == 0,
            r.spec_param_types().len() == 0,
            r.spec_entry_count() == 0,
            r.spec_root() is None,
            r.spec_marks().len() == 0,
            r.spec_content_hash() == 0,
    {
        EclImage::empty()
    }
}

/// A named entry resolved against a particular image.
#[derive(Clone, Copy, Debug, PartialEq, Eq)]
pub struct ResolvedEntry<'a> {
    image: &'a EclImage,
    id: EntryId,
}

impl<'a> ResolvedEntry<'a> {
    /// The entry is a valid index of its image's entry table.
    #[verifier::type_invariant]
    closed spec fn wf(self) -> bool {
        self.id@ < self.image.spec_entry_count()
    }

    /// The image the entry was resolved against.
    pub closed spec fn spec_image(self) -> &'a EclImage {
        self.image
    }

    /// The entry index.
    pub closed spec fn spec_id(self) -> EntryId {
        self.id
    }

    /// The entry index.
    pub fn id(self) -> (r: EntryId)
        ensures
            r == self.spec_id(),
    {
        self.id
    }

    /// The sub this entry starts.
    pub fn sub(self) -> (r: SubId)
        ensures
            r == self.spec_image().spec_entry_sub(self.spec_id()@ as int),
            r@ < self.spec_image().spec_subs().len(),
    {
        proof {
            use_type_invariant(self);
            use_type_invariant(self.image);
        }
        self.image.entries[self.id.0 as usize].sub
    }

    /// The run-time record of the sub this entry starts.
    pub fn meta(self) -> (r: &'a RuntimeSubMeta)
        ensures
            *r == self.spec_image().spec_subs()[self.spec_image().spec_entry_sub(
                self.spec_id()@ as int,
            )@ as int],
            r.param_count <= MAX_PARAMS,
    {
        proof {
            use_type_invariant(self);
            use_type_invariant(self.image);
        }
        let s = self.image.entries[self.id.0 as usize].sub;
        &self.image.subs[s.0 as usize]
    }

    /// Whether the entry index is inside the image's entry table.
    pub fn is_valid_entry_id(self) -> (r: bool)
        ensures
            r == (self.spec_id()@ < self.spec_image().spec_entry_count()),
    {
        (self.id.0 as usize) < self.image.entries.len()
    }

    /// The image the entry was resolved against.
    pub fn image(&self) -> (r: &'a EclImage)
        ensures
            r == self.spec_image(),
    {
        self.image
    }
}

} // verus!
