//! The syscall metadata table: built once from plain descriptor rows,
//! immutable afterwards, and consulted at every syscall-exit stop.
//!
//! A descriptor row is the ordered field list of one table entry: the
//! syscall number, the name, one field that carries no argument
//! information, and then up to six argument descriptions, each an object
//! that may declare the argument's native type.  An argument whose
//! declared type denotes a user-space character pointer is classified as
//! a string pointer; every other argument is opaque.

use vstd::prelude::*;

use std::collections::HashMap;

verus! {

/// How one syscall argument is interpreted at an exit stop.
#[derive(Clone, Copy, Debug, PartialEq, Eq, Structural)]
pub enum ArgKind {
    /// The argument register holds the address of a NUL-terminated byte
    /// sequence in tracee memory.
    StringPointer,
    /// The argument register holds an unstructured machine word.
    Opaque,
}

/// The table builder's classification policy: full per-argument typing,
/// or the simplified variant that keeps only the argument count and
/// treats every argument as opaque.
#[derive(Clone, Copy, Debug, PartialEq, Eq, Structural)]
pub enum ArgumentDetail {
    Typed,
    CountOnly,
}

/// One field of a descriptor row, as plain values: an unsigned integer, a
/// text, an object that declares an argument type, an object that does
/// not, or anything else.
#[derive(Debug, Clone)]
pub enum DescriptorField {
    Integer(u64),
    Text(String),
    TypedObject(String),
    UntypedObject,
    Other,
}

/// One row of the descriptor source.
#[derive(Debug, Clone)]
pub struct DescriptorRow {
    pub fields: Vec<DescriptorField>,
}

/// One table entry: a syscall's number, its name, and the kinds of its
/// arguments in calling-convention order (at most six).
#[derive(Debug, Clone)]
pub struct SyscallDescriptor {
    pub number: u64,
    pub name: String,
    pub args: Vec<ArgKind>,
}

/// The mathematical value of a descriptor.
pub ghost struct DescView {
    pub number: u64,
    pub name: Seq<char>,
    pub args: Seq<ArgKind>,
}

impl View for SyscallDescriptor {
    type V = DescView;

    open spec fn view(&self) -> DescView {
        DescView { number: self.number, name: self.name@, args: self.args@ }
    }
}

pub open spec fn field_is_integer(f: DescriptorField) -> bool {
    match f {
        DescriptorField::Integer(_) => true,
        _ => false,
    }
}

pub open spec fn field_integer(f: DescriptorField) -> u64 {
    match f {
        DescriptorField::Integer(v) => v,
        _ => arbitrary(),
    }
}

pub open spec fn field_is_text(f: DescriptorField) -> bool {
    match f {
        DescriptorField::Text(_) => true,
        _ => false,
    }
}

pub open spec fn field_text(f: DescriptorField) -> Seq<char> {
    match f {
        DescriptorField::Text(s) => s@,
        _ => arbitrary(),
    }
}

pub open spec fn field_is_object(f: DescriptorField) -> bool {
    match f {
        DescriptorField::TypedObject(_) => true,
        DescriptorField::UntypedObject => true,
        _ => false,
    }
}

/// `p` is a prefix of `s`.
pub open spec fn has_prefix(s: Seq<char>, p: Seq<char>) -> bool {
    p.len() <= s.len() && s.subrange(0, p.len() as int) == p
}

/// The declared native type denotes a possibly-const, user-space
/// character pointer.
pub open spec fn is_string_pointer_decl(t: Seq<char>) -> bool {
    has_prefix(t, "const char __user * "@) || has_prefix(t, "char __user * "@)
}

pub open spec fn spec_classify(detail: ArgumentDetail, t: Seq<char>) -> ArgKind {
    match detail {
        ArgumentDetail::Typed => if is_string_pointer_decl(t) {
            ArgKind::StringPointer
        } else {
            ArgKind::Opaque
        },
        ArgumentDetail::CountOnly => ArgKind::Opaque,
    }
}

/// Whether `p` is a prefix of `s`, character by character.
pub fn str_has_prefix(s: &str, p: &str) -> (r: bool)
    ensures
        r == has_prefix(s@, p@),
{
    let slen = s.unicode_len();
    let plen = p.unicode_len();
    if plen > slen {
        return false;
    }
    let mut i: usize = 0;
    while i < plen
        invariant
            0 <= i <= plen,
            plen == p@.len(),
            slen == s@.len(),
            plen <= slen,
            forall|j: int| 0 <= j < i ==> s@[j] == p@[j],
        decreases plen - i,
    {
        if s.get_char(i) != p.get_char(i) {
            proof {
                assert(s@.subrange(0, plen as int)[i as int] == s@[i as int]);
            }
            return false;
        }
        i = i + 1;
    }
    proof {
        assert(s@.subrange(0, plen as int) =~= p@);
    }
    true
}

/// Classify one declared argument type under the given policy.
pub fn classify_argument(detail: ArgumentDetail, type_desc: &str) -> (k: ArgKind)
    ensures
        k == spec_classify(detail, type_desc@),
{
    match detail {
        ArgumentDetail::CountOnly => ArgKind::Opaque,
        ArgumentDetail::Typed => {
            if str_has_prefix(type_desc, "const char __user * ") || str_has_prefix(
                type_desc,
                "char __user * ",
            ) {
                ArgKind::StringPointer
            } else {
                ArgKind::Opaque
            }
        },
    }
}

/// Index just past the last field of a row that may describe an argument:
/// at most six fields are taken, starting after the number, the name and
/// the field that carries no argument information.
pub open spec fn arg_end(row: DescriptorRow) -> int {
    if row.fields@.len() >= 9 {
        9
    } else if row.fields@.len() <= 3 {
        3
    } else {
        row.fields@.len() as int
    }
}

/// The fields of a row that may describe arguments.
pub open spec fn arg_fields(row: DescriptorRow) -> Seq<DescriptorField> {
    if row.fields@.len() <= 3 {
        Seq::empty()
    } else {
        row.fields@.subrange(3, arg_end(row))
    }
}

/// The argument kinds that a run of fields contributes: each object with
/// a declared type is classified; an object without one contributes
/// nothing.
pub open spec fn arg_kinds_of(fields: Seq<DescriptorField>, detail: ArgumentDetail) -> Seq<ArgKind>
    decreases fields.len(),
{
    if fields.len() == 0 {
        Seq::empty()
    } else {
        let init = arg_kinds_of(fields.drop_last(), detail);
        match fields.last() {
            DescriptorField::TypedObject(t) => init.push(spec_classify(detail, t@)),
            _ => init,
        }
    }
}

pub proof fn lemma_arg_kinds_len(fields: Seq<DescriptorField>, detail: ArgumentDetail)
    ensures
        arg_kinds_of(fields, detail).len() <= fields.len(),
    decreases fields.len(),
{
    if fields.len() > 0 {
        lemma_arg_kinds_len(fields.drop_last(), detail);
    }
}

/// The first structural defect of a descriptor row, if any.
#[derive(Clone, Copy, Debug, PartialEq, Eq, Structural)]
pub enum RowDefect {
    /// Fewer than the two required fields (number and name).
    TooShort,
    /// The first field is not an unsigned integer.
    NumberNotInteger,
    /// The second field is not a text.
    NameNotText,
    /// A field in the argument range is not an object.
    ArgumentNotObject,
}

pub open spec fn row_defect(row: DescriptorRow) -> Option<RowDefect> {
    if row.fields@.len() < 2 {
        Some(RowDefect::TooShort)
    } else if !field_is_integer(row.fields@[0]) {
        Some(RowDefect::NumberNotInteger)
    } else if !field_is_text(row.fields@[1]) {
        Some(RowDefect::NameNotText)
    } else if exists|i: int| 3 <= i < arg_end(row) && !field_is_object(#[trigger] row.fields@[i]) {
        Some(RowDefect::ArgumentNotObject)
    } else {
        None
    }
}

/// A row is well-formed when it has no structural defect.
pub open spec fn row_wf(row: DescriptorRow) -> bool {
    row_defect(row) is None
}

/// The descriptor that a well-formed row denotes.
pub open spec fn row_descriptor(row: DescriptorRow, detail: ArgumentDetail) -> DescView {
    DescView {
        number: field_integer(row.fields@[0]),
        name: field_text(row.fields@[1]),
        args: arg_kinds_of(arg_fields(row), detail),
    }
}

/// The mapping that a run of well-formed rows builds, a later row
/// overriding an earlier one with the same number.
pub open spec fn table_of(rows: Seq<DescriptorRow>, detail: ArgumentDetail) -> Map<u64, DescView>
    decreases rows.len(),
{
    if rows.len() == 0 {
        Map::empty()
    } else {
        table_of(rows.drop_last(), detail).insert(
            field_integer(rows.last().fields@[0]),
            row_descriptor(rows.last(), detail),
        )
    }
}

/// A malformed descriptor source: the first offending row and its defect.
#[derive(Debug, Clone, Copy)]
pub struct BuildError {
    pub row: usize,
    pub defect: RowDefect,
}

/// The mathematical value of a built table.
pub open spec fn table_view_of(m: Map<u64, SyscallDescriptor>) -> Map<u64, DescView> {
    Map::new(|n: u64| m.contains_key(n), |n: u64| m[n]@)
}

/// The mapping from syscall number to descriptor: keys unique, built once
/// at startup, read-only for the remainder of the run.
#[derive(Debug)]
pub struct MetadataTable {
    map: HashMap<u64, SyscallDescriptor>,
}

impl View for MetadataTable {
    type V = Map<u64, DescView>;

    closed spec fn view(&self) -> Map<u64, DescView> {
        table_view_of(self.map@)
    }
}

proof fn lemma_table_view_insert(m: Map<u64, SyscallDescriptor>, k: u64, v: SyscallDescriptor)
    ensures
        table_view_of(m.insert(k, v)) == table_view_of(m).insert(k, v@),
{
    assert(table_view_of(m.insert(k, v)) =~= table_view_of(m).insert(k, v@));
}

impl MetadataTable {
    /// Every descriptor in the table is keyed by its own number and
    /// declares at most six arguments.
    pub open spec fn wf(&self) -> bool {
        forall|n: u64| self@.contains_key(n) ==> (#[trigger] self@[n]).number == n && self@[n].args.len() <= 6
    }

    /// Build the table from the descriptor source.  Fails exactly when
    /// some row is structurally malformed, naming the first such row and
    /// its defect; otherwise the table holds precisely what the rows
    /// denote.
    pub fn build(rows: &Vec<DescriptorRow>, detail: ArgumentDetail) -> (r: Result<
        MetadataTable,
        BuildError,
    >)
        ensures
            match r {
                Ok(t) => {
                    &&& forall|i: int| 0 <= i < rows@.len() ==> row_wf(#[trigger] rows@[i])
                    &&& t@ == table_of(rows@, detail)
                    &&& t.wf()
                },
                Err(e) => {
                    &&& 0 <= (e.row as int) < rows@.len()
                    &&& row_defect(rows@[e.row as int]) == Some(e.defect)
                    &&& forall|j: int| 0 <= j < e.row as int ==> row_wf(#[trigger] rows@[j])
                },
            },
    {
        let mut map: HashMap<u64, SyscallDescriptor> = HashMap::new();
        proof {
            assert(table_view_of(map@) =~= table_of(rows@.subrange(0, 0), detail));
        }
        let mut idx: usize = 0;
        while idx < rows.len()
            invariant
                0 <= idx <= rows@.len(),
                forall|j: int| 0 <= j < idx ==> row_wf(#[trigger] rows@[j]),
                table_view_of(map@) == table_of(rows@.subrange(0, idx as int), detail),
                forall|n: u64|
                    map@.contains_key(n) ==> (#[trigger] map@[n])@.number == n && map@[n]@.args.len()
                        <= 6,
                vstd::std_specs::hash::obeys_key_model::<u64>(),
            decreases rows@.len() - idx,
        {
            let row = &rows[idx];
            if row.fields.len() < 2 {
                return Err(BuildError { row: idx, defect: RowDefect::TooShort });
            }
            let number: u64 = match &row.fields[0] {
                DescriptorField::Integer(v) => *v,
                _ => {
                    return Err(BuildError { row: idx, defect: RowDefect::NumberNotInteger });
                },
            };
            let name: String = match &row.fields[1] {
                DescriptorField::Text(s) => s.clone(),
                _ => {
                    return Err(BuildError { row: idx, defect: RowDefect::NameNotText });
                },
            };
            let arg_hi: usize = if row.fields.len() >= 9 {
                9
            } else if row.fields.len() <= 3 {
                3
            } else {
                row.fields.len()
            };
            let mut kinds: Vec<ArgKind> = Vec::new();
            proof {
                assert(arg_fields(*row).subrange(0, 0) =~= Seq::<DescriptorField>::empty());
            }
            let mut j: usize = 3;
            while j < arg_hi
                invariant
                    3 <= j <= arg_hi,
                    0 <= idx < rows@.len(),
                    *row == rows@[idx as int],
                    forall|p: int| 0 <= p < idx ==> row_wf(#[trigger] rows@[p]),
                    arg_hi as int == arg_end(*row),
                    arg_hi > 3 ==> row.fields@.len() > 3,
                    row.fields@.len() >= 2,
                    kinds@ == arg_kinds_of(arg_fields(*row).subrange(0, j - 3), detail),
                    forall|i: int| 3 <= i < j ==> field_is_object(#[trigger] row.fields@[i]),
                    field_is_integer(row.fields@[0]),
                    field_is_text(row.fields@[1]),
                decreases arg_hi - j,
            {
                let ghost pre = arg_fields(*row).subrange(0, j - 3);
                match &row.fields[j] {
                    DescriptorField::TypedObject(t) => {
                        let k = classify_argument(detail, t.as_str());
                        kinds.push(k);
                    },
                    DescriptorField::UntypedObject => {},
                    _ => {
                        proof {
                            assert(!field_is_object(row.fields@[j as int]));
                            assert(row_defect(rows@[idx as int]) == Some(
                                RowDefect::ArgumentNotObject,
                            ));
                        }
                        return Err(BuildError { row: idx, defect: RowDefect::ArgumentNotObject });
                    },
                }
                proof {
                    let post = arg_fields(*row).subrange(0, j + 1 - 3);
                    assert(post.drop_last() =~= pre);
                    assert(post.last() == arg_fields(*row)[j - 3]);
                    assert(arg_fields(*row)[j - 3] == row.fields@[j as int]);
                }
                j = j + 1;
            }
            proof {
                assert(arg_fields(*row).subrange(0, arg_hi - 3) =~= arg_fields(*row));
                lemma_arg_kinds_len(arg_fields(*row), detail);
            }
            let desc = SyscallDescriptor { number, name, args: kinds };
            let ghost old_map = map@;
            map.insert(number, desc);
            proof {
                lemma_table_view_insert(old_map, number, desc);
                let prefix = rows@.subrange(0, idx as int);
                let step = rows@.subrange(0, idx + 1);
                assert(step.drop_last() =~= prefix);
                assert(step.last() == rows@[idx as int]);
                assert(desc@ == row_descriptor(rows@[idx as int], detail));
            }
            idx = idx + 1;
        }
        proof {
            assert(rows@.subrange(0, rows@.len() as int) =~= rows@);
        }
        Ok(MetadataTable { map })
    }

    /// Look the descriptor for `number` up; `None` exactly when the table
    /// does not cover that number, which callers must treat as fatal.
    pub fn lookup(&self, number: u64) -> (r: Option<&SyscallDescriptor>)
        ensures
            match r {
                Some(d) => self@.contains_key(number) && d@ == self@[number],
                None => !self@.contains_key(number),
            },
    {
        self.map.get(&number)
    }
}

/// Every syscall number the table covers resolves to a descriptor whose
/// argument list has between zero and six entries.
pub proof fn lemma_lookup_arity(t: &MetadataTable, n: u64)
    requires
        t.wf(),
        t@.contains_key(n),
    ensures
        0 <= t@[n].args.len() <= 6,
{
}

} // verus!
