//! One invocation's work on a loaded store: perform an action, and say what
//! to print and whether the store must be written back.
use vstd::prelude::*;

use crate::args::Action;
use crate::data::{empty_entry, rendered, texts_model, text_model, values_model, Entry, EntryModel, Selectors, Value};
use crate::error::Error;
use crate::store::{clear_removes, cleared, replaced, updated, HarpConnection};

verus! {

/// What an action produced.
pub struct Outcome {
    /// The values to print, in order.
    pub values: Vec<Value>,
    /// Whether the store changed and must be saved.
    pub write: bool,
}

/// The fields that an update action sets.
pub open spec fn fields_model(
    path: Option<String>,
    line: Option<i32>,
    column: Option<i32>,
    extra: Option<String>,
) -> EntryModel {
    EntryModel { path: text_model(path), line, column, extra: text_model(extra) }
}

/// Performs `action` on `harp`.
pub fn run(harp: &mut HarpConnection, action: Action) -> (r: Result<Outcome, Error>)
    requires
        old(harp).wf(),
    ensures
        final(harp).wf(),
        match action {
            Action::Get { section, register, path, line, column, extra, .. } => {
                let m = old(harp)@;
                let sel = Selectors { path, line, column, extra };
                &&& final(harp)@ == m
                &&& (!m.contains_key(section@) <==> r == Err::<Outcome, Error>(Error::SectionNotFound))
                &&& (m.contains_key(section@) && !m[section@].contains_key(register@) <==> r
                    == Err::<Outcome, Error>(Error::RegisterNotFound))
                &&& (r matches Ok(o) ==> !o.write && values_model(o.values@) == rendered(
                    m[section@][register@],
                    sel,
                ))
            },
            Action::Update { section, register, path, line, column, extra } => {
                let f = fields_model(path, line, column, extra);
                &&& (f == empty_entry() <==> r == Err::<Outcome, Error>(Error::NoFieldsSpecified))
                &&& (f == empty_entry() ==> final(harp)@ == old(harp)@)
                &&& (f != empty_entry() ==> (r matches Ok(o) && o.write && o.values@.len() == 0))
                &&& (f != empty_entry() ==> final(harp)@ == updated(old(harp)@, section@, register@, f))
            },
            Action::Replace { section, register, values } => {
                &&& r matches Ok(o) && o.write && o.values@.len() == 0
                &&& final(harp)@ == replaced(old(harp)@, section@, register@, texts_model(values@))
            },
            Action::Clear { section, register } => {
                let reg = match register {
                    Some(x) => Some(x@),
                    None => None,
                };
                &&& r matches Ok(o) && o.values@.len() == 0 && o.write == clear_removes(
                    old(harp)@,
                    section@,
                    reg,
                )
                &&& final(harp)@ == cleared(old(harp)@, section@, reg)
            },
        },
{
    match action {
        Action::Get { section, register, null: _, path, line, column, extra } => {
            let sel = Selectors { path, line, column, extra };
            match harp.get(&section, &register, sel) {
                Ok(values) => Ok(Outcome { values, write: false }),
                Err(e) => Err(e),
            }
        },
        Action::Update { section, register, path, line, column, extra } => {
            let fields = Entry { path, line, column, extra };
            match harp.update(section, register, fields) {
                Ok(()) => Ok(Outcome { values: Vec::new(), write: true }),
                Err(e) => Err(e),
            }
        },
        Action::Replace { section, register, values } => {
            harp.replace(section, register, values);
            Ok(Outcome { values: Vec::new(), write: true })
        },
        Action::Clear { section, register } => {
            let write = match &register {
                Some(x) => harp.clear(&section, Some(x)),
                None => harp.clear(&section, None),
            };
            Ok(Outcome { values: Vec::new(), write })
        },
    }
}

} // verus!
