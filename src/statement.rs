use vstd::prelude::*;
use crate::field::{canonical, is_canonical, GOLDILOCKS_ORDER};

verus! {

/// A named atomic value: a Goldilocks field element under a key.
pub struct Entry {
    pub name: String,
    pub value: u64,
}

impl Entry {
    pub open spec fn wf(&self) -> bool {
        is_canonical(self.value)
    }

    /// An entry holding the field element that `value` stands for.
    pub fn new_from_scalar(name: &str, value: u64) -> (r: Entry)
        ensures
            r.name@ == name@,
            r.value as int == value as int % GOLDILOCKS_ORDER as int,
            r.wf(),
    {
        Entry { name: String::from_str(name), value: canonical(value) }
    }
}

/// A typed claim. Relational claims name the keys of the entries they relate.
pub enum Statement {
    NoOp,
    ValueOf { key: String, value: u64 },
    Equal { left: String, right: String },
    NotEqual { left: String, right: String },
}

/// The mathematical value of a [`Statement`].
pub ghost enum StatementModel {
    NoOp,
    ValueOf { key: Seq<char>, value: u64 },
    Equal { left: Seq<char>, right: Seq<char> },
    NotEqual { left: Seq<char>, right: Seq<char> },
}

impl View for Statement {
    type V = StatementModel;

    open spec fn view(&self) -> StatementModel {
        match self {
            Statement::NoOp => StatementModel::NoOp,
            Statement::ValueOf { key, value } => StatementModel::ValueOf { key: key@, value: *value },
            Statement::Equal { left, right } => StatementModel::Equal { left: left@, right: right@ },
            Statement::NotEqual { left, right } => StatementModel::NotEqual { left: left@, right: right@ },
        }
    }
}

impl Statement {
    /// Duplicates the statement.
    pub fn copy(&self) -> (r: Statement)
        ensures
            r@ == self@,
    {
        match self {
            Statement::NoOp => Statement::NoOp,
            Statement::ValueOf { key, value } => Statement::ValueOf { key: key.clone(), value: *value },
            Statement::Equal { left, right } => Statement::Equal { left: left.clone(), right: right.clone() },
            Statement::NotEqual { left, right } => Statement::NotEqual { left: left.clone(), right: right.clone() },
        }
    }

    /// The statement that `entry` has its value.
    pub fn from_entry(entry: &Entry) -> (r: Statement)
        ensures
            r@ == (StatementModel::ValueOf { key: entry.name@, value: entry.value }),
    {
        Statement::ValueOf { key: entry.name.clone(), value: entry.value }
    }

    /// The tag that prefixes the name of a statement of this kind.
    pub fn kind_tag(&self) -> (r: &'static str)
        ensures
            r@ == kind_tag_spec(self@),
    {
        match self {
            Statement::NoOp => "NONE",
            Statement::ValueOf { .. } => "VALUEOF",
            Statement::Equal { .. } => "EQUAL",
            Statement::NotEqual { .. } => "NOTEQUAL",
        }
    }
}

pub open spec fn kind_tag_spec(s: StatementModel) -> Seq<char> {
    match s {
        StatementModel::NoOp => "NONE"@,
        StatementModel::ValueOf { .. } => "VALUEOF"@,
        StatementModel::Equal { .. } => "EQUAL"@,
        StatementModel::NotEqual { .. } => "NOTEQUAL"@,
    }
}

/// The name under which a statement produced for `out` is filed: its kind's
/// tag, a colon, and `out`.
pub open spec fn statement_name(s: StatementModel, out: Seq<char>) -> Seq<char> {
    kind_tag_spec(s) + ":"@ + out
}

/// Builds the name under which `s` is filed for the output name `out`.
pub fn name_statement(s: &Statement, out: &str) -> (r: String)
    ensures
        r@ == statement_name(s@, out@),
{
    let mut name = String::from_str(s.kind_tag());
    name.append(":");
    name.append(out);
    name
}

/// A statement filed under a name.
pub type NamedStatement = (String, Statement);

pub open spec fn named_view(s: Seq<NamedStatement>) -> Seq<(Seq<char>, StatementModel)> {
    s.map_values(|p: NamedStatement| (p.0@, p.1@))
}

/// The value of the first element filed under `name`, scanning from the front.
pub open spec fn find_named<T>(s: Seq<(Seq<char>, T)>, name: Seq<char>) -> Option<T>
    decreases s.len(),
{
    if s.len() == 0 {
        None
    } else {
        match find_named(s.drop_last(), name) {
            Some(t) => Some(t),
            None => if s.last().0 == name { Some(s.last().1) } else { None },
        }
    }
}

/// Appending an element keeps earlier finds and may add one.
pub proof fn lemma_find_named_push<T>(s: Seq<(Seq<char>, T)>, x: (Seq<char>, T), name: Seq<char>)
    ensures
        find_named(s.push(x), name) == (match find_named(s, name) {
            Some(t) => Some(t),
            None => if x.0 == name { Some(x.1) } else { None },
        }),
{
    assert(s.push(x).drop_last() =~= s);
}

/// Looks up the statement filed under `name`.
pub fn find_statement<'a>(s: &'a Vec<NamedStatement>, name: &String) -> (r: Option<&'a Statement>)
    ensures
        match r {
            Some(st) => find_named(named_view(s@), name@) == Some(st@),
            None => find_named(named_view(s@), name@).is_none(),
        },
{
    let mut i: usize = 0;
    while i < s.len()
        invariant
            i <= s.len(),
            find_named(named_view(s@.take(i as int)), name@).is_none(),
        decreases s.len() - i,
    {
        proof {
            assert(s@.take(i as int + 1) =~= s@.take(i as int).push(s@[i as int]));
            assert(named_view(s@.take(i as int + 1)) =~= named_view(s@.take(i as int)).push((s@[i as int].0@, s@[i as int].1@)));
            lemma_find_named_push(named_view(s@.take(i as int)), (s@[i as int].0@, s@[i as int].1@), name@);
        }
        if s[i].0 == *name {
            proof {
                assert(named_view(s@).take(i as int + 1) =~= named_view(s@.take(i as int + 1)));
                assert(find_named(named_view(s@.take(i as int + 1)), name@) == Some(s@[i as int].1@));
                lemma_find_named_prefix(named_view(s@), i as int + 1, name@);
            }
            return Some(&s[i].1);
        }
        i = i + 1;
    }
    proof {
        assert(s@.take(i as int) =~= s@);
    }
    None
}

/// A find that succeeds on a prefix gives the same result on the whole sequence.
pub proof fn lemma_find_named_prefix<T>(s: Seq<(Seq<char>, T)>, k: int, name: Seq<char>)
    requires
        0 <= k <= s.len(),
        find_named(s.take(k), name).is_some(),
    ensures
        find_named(s, name) == find_named(s.take(k), name),
    decreases s.len() - k,
{
    if k < s.len() {
        assert(s.take(k + 1) =~= s.take(k).push(s[k]));
        lemma_find_named_push(s.take(k), s[k], name);
        lemma_find_named_prefix(s, k + 1, name);
    } else {
        assert(s.take(k) =~= s);
    }
}

/// A reference to the statement filed under `.1` in the input named `.0`.
pub struct StatementRef(pub String, pub String);

} // verus!
