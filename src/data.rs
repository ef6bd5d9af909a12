use vstd::prelude::*;

verus! {

/// A bookmark: where a file was left, and free text beside it.
/// Every field is optional; an entry with none set is still an entry.
#[derive(Clone, Debug, PartialEq, Eq, Default)]
pub struct Entry {
    pub path: Option<String>,
    pub line: Option<i32>,
    pub column: Option<i32>,
    pub extra: Option<String>,
}

/// The mathematical value of an [`Entry`].
pub struct EntryModel {
    pub path: Option<Seq<char>>,
    pub line: Option<i32>,
    pub column: Option<i32>,
    pub extra: Option<Seq<char>>,
}

pub open spec fn text_model(o: Option<String>) -> Option<Seq<char>> {
    match o {
        Some(s) => Some(s@),
        None => None,
    }
}

/// The entry with no field set.
pub open spec fn empty_entry() -> EntryModel {
    EntryModel { path: None, line: None, column: None, extra: None }
}

/// `fields` laid over `base`: each field that `fields` sets wins, the others stay.
pub open spec fn merge(base: EntryModel, fields: EntryModel) -> EntryModel {
    EntryModel {
        path: if fields.path is Some { fields.path } else { base.path },
        line: if fields.line is Some { fields.line } else { base.line },
        column: if fields.column is Some { fields.column } else { base.column },
        extra: if fields.extra is Some { fields.extra } else { base.extra },
    }
}

impl View for Entry {
    type V = EntryModel;

    open spec fn view(&self) -> EntryModel {
        EntryModel {
            path: text_model(self.path),
            line: self.line,
            column: self.column,
            extra: text_model(self.extra),
        }
    }
}

/// A copy of an optional string.
pub fn clone_text(o: &Option<String>) -> (r: Option<String>)
    ensures
        text_model(r) == text_model(*o),
{
    match o {
        Some(s) => Some(s.clone()),
        None => None,
    }
}

impl Entry {
    /// An entry with no field set.
    pub fn new() -> (r: Entry)
        ensures
            r@ == empty_entry(),
    {
        Entry { path: None, line: None, column: None, extra: None }
    }

    /// Whether no field is set.
    pub fn is_empty(&self) -> (r: bool)
        ensures
            r == (self@ == empty_entry()),
    {
        self.path.is_none() && self.line.is_none() && self.column.is_none() && self.extra.is_none()
    }

    /// This entry with each field that `fields` sets replaced by that value.
    pub fn merged(&self, fields: &Entry) -> (r: Entry)
        ensures
            r@ == merge(self@, fields@),
    {
        Entry {
            path: if fields.path.is_some() { clone_text(&fields.path) } else { clone_text(&self.path) },
            line: if fields.line.is_some() { fields.line } else { self.line },
            column: if fields.column.is_some() { fields.column } else { self.column },
            extra: if fields.extra.is_some() { clone_text(&fields.extra) } else { clone_text(&self.extra) },
        }
    }
}

/// What a register holds: a structured entry, or an ordered list of strings.
#[derive(Clone, Debug, PartialEq, Eq)]
pub enum Register {
    Fields(Entry),
    Values(Vec<String>),
}

impl Register {
    /// A copy of this register.
    pub fn duplicate(&self) -> (r: Register)
        ensures
            r@ == self@,
    {
        match self {
            Register::Fields(e) => Register::Fields(e.merged(&Entry::new())),
            Register::Values(vs) => {
                let mut out: Vec<String> = Vec::new();
                let mut i: usize = 0;
                while i < vs.len()
                    invariant
                        i <= vs@.len(),
                        out@.len() == i,
                        forall|j: int| 0 <= j < i ==> #[trigger] out@[j]@ == vs@[j]@,
                    decreases vs@.len() - i,
                {
                    out.push(vs[i].clone());
                    i = i + 1;
                }
                assert(texts_model(out@) =~= texts_model(vs@));
                Register::Values(out)
            },
        }
    }

    /// Whether the register holds a list.
    pub fn is_values(&self) -> (r: bool)
        ensures
            r == (self is Values),
    {
        match self {
            Register::Values(_) => true,
            Register::Fields(_) => false,
        }
    }
}

/// The mathematical value of a [`Register`].
pub enum RegisterModel {
    Fields(EntryModel),
    Values(Seq<Seq<char>>),
}

pub open spec fn texts_model(v: Seq<String>) -> Seq<Seq<char>> {
    v.map_values(|s: String| s@)
}

impl View for Register {
    type V = RegisterModel;

    open spec fn view(&self) -> RegisterModel {
        match self {
            Register::Fields(e) => RegisterModel::Fields(e@),
            Register::Values(v) => RegisterModel::Values(texts_model(v@)),
        }
    }
}

/// The entry that a register stands for: a list of strings counts as an empty entry.
pub open spec fn entry_of(r: RegisterModel) -> EntryModel {
    match r {
        RegisterModel::Fields(e) => e,
        RegisterModel::Values(_) => empty_entry(),
    }
}

/// Which fields of an entry a lookup asks for.
#[derive(Copy, Clone, PartialEq, Eq, Structural, Debug)]
pub struct Selectors {
    pub path: bool,
    pub line: bool,
    pub column: bool,
    pub extra: bool,
}

impl Selectors {
    /// Whether no field is asked for.
    pub open spec fn is_none(self) -> bool {
        !self.path && !self.line && !self.column && !self.extra
    }

    /// The selectors that stand in force: asking for nothing asks for everything.
    pub open spec fn effective(self) -> Selectors {
        if self.is_none() {
            Selectors { path: true, line: true, column: true, extra: true }
        } else {
            self
        }
    }

    /// Every field.
    pub fn all() -> (r: Selectors)
        ensures
            r.path && r.line && r.column && r.extra,
    {
        Selectors { path: true, line: true, column: true, extra: true }
    }
}

/// One value handed back by a lookup.
#[derive(Clone, Debug, PartialEq, Eq)]
pub enum Value {
    Text(String),
    Number(i32),
}

/// The mathematical value of a [`Value`].
pub enum ValueModel {
    Text(Seq<char>),
    Number(i32),
}

impl View for Value {
    type V = ValueModel;

    open spec fn view(&self) -> ValueModel {
        match self {
            Value::Text(s) => ValueModel::Text(s@),
            Value::Number(n) => ValueModel::Number(*n),
        }
    }
}

pub open spec fn values_model(v: Seq<Value>) -> Seq<ValueModel> {
    v.map_values(|x: Value| x@)
}

pub open spec fn text_field(wanted: bool, o: Option<Seq<char>>) -> Seq<ValueModel> {
    if wanted && o is Some {
        seq![ValueModel::Text(o.unwrap())]
    } else {
        seq![]
    }
}

pub open spec fn number_field(wanted: bool, o: Option<i32>) -> Seq<ValueModel> {
    if wanted && o is Some {
        seq![ValueModel::Number(o.unwrap())]
    } else {
        seq![]
    }
}

/// What a lookup of register `r` with `sel` hands back. For an entry: the
/// selected fields that are set, always in the order path, line, column, extra.
/// For a list: its strings in order.
pub open spec fn rendered(r: RegisterModel, sel: Selectors) -> Seq<ValueModel> {
    match r {
        RegisterModel::Fields(e) => {
            let s = sel.effective();
            text_field(s.path, e.path) + number_field(s.line, e.line) + number_field(s.column, e.column)
                + text_field(s.extra, e.extra)
        },
        RegisterModel::Values(vs) => vs.map_values(|v: Seq<char>| ValueModel::Text(v)),
    }
}

/// What a lookup of `r` hands back; see [`rendered`].
pub fn render(r: &Register, sel: Selectors) -> (out: Vec<Value>)
    ensures
        values_model(out@) == rendered(r@, sel),
{
    match r {
        Register::Fields(e) => {
            let s = if !sel.path && !sel.line && !sel.column && !sel.extra {
                Selectors::all()
            } else {
                sel
            };
            assert(s == sel.effective());
            let mut out: Vec<Value> = Vec::new();
            if s.path {
                if let Some(p) = &e.path {
                    out.push(Value::Text(p.clone()));
                }
            }
            assert(values_model(out@) =~= text_field(s.path, e@.path));
            let ghost a = values_model(out@);
            if s.line {
                if let Some(n) = e.line {
                    out.push(Value::Number(n));
                }
            }
            assert(values_model(out@) =~= a + number_field(s.line, e@.line));
            let ghost b = values_model(out@);
            if s.column {
                if let Some(n) = e.column {
                    out.push(Value::Number(n));
                }
            }
            assert(values_model(out@) =~= b + number_field(s.column, e@.column));
            let ghost c = values_model(out@);
            if s.extra {
                if let Some(x) = &e.extra {
                    out.push(Value::Text(x.clone()));
                }
            }
            assert(values_model(out@) =~= c + text_field(s.extra, e@.extra));
            out
        },
        Register::Values(vs) => {
            let mut out: Vec<Value> = Vec::new();
            let mut i: usize = 0;
            while i < vs.len()
                invariant
                    i <= vs@.len(),
                    out@.len() == i,
                    forall|j: int| 0 <= j < i ==> #[trigger] out@[j]@ == ValueModel::Text(vs@[j]@),
                decreases vs@.len() - i,
            {
                out.push(Value::Text(vs[i].clone()));
                i = i + 1;
            }
            assert(values_model(out@) =~= rendered(r@, sel));
            out
        },
    }
}

} // verus!
