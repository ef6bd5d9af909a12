//! The entry store: sections of named registers, looked up by exact name.
use vstd::prelude::*;

use crate::assoc::{
    keys_unique, lemma_to_map_dom, lemma_to_map_index, lemma_to_map_push, lemma_to_map_remove,
    lemma_to_map_update, to_map,
};
use crate::data::{
    empty_entry, entry_of, merge, render, rendered, texts_model, values_model, Entry, EntryModel,
    Register, RegisterModel, Selectors, Value,
};
use crate::error::Error;
use vstd::string::StrSliceExecFns;

verus! {

/// A named register inside a section.
#[derive(Clone, Debug)]
pub struct Slot {
    pub name: String,
    pub register: Register,
}

impl Slot {
    pub open spec fn pair(self) -> (Seq<char>, RegisterModel) {
        (self.name@, self.register@)
    }
}

/// A named group of registers; register names are distinct within it.
#[derive(Clone, Debug)]
pub struct Section {
    pub name: String,
    pub slots: Vec<Slot>,
}

pub open spec fn slot_pairs(s: Seq<Slot>) -> Seq<(Seq<char>, RegisterModel)> {
    s.map_values(|x: Slot| x.pair())
}

impl Section {
    pub open spec fn pairs(self) -> Seq<(Seq<char>, RegisterModel)> {
        slot_pairs(self.slots@)
    }

    /// Register names are distinct.
    pub open spec fn wf(self) -> bool {
        keys_unique(self.pairs())
    }

    /// Each register name to what the register holds.
    pub open spec fn model(self) -> Map<Seq<char>, RegisterModel> {
        to_map(self.pairs())
    }

    /// A section of the given name with no register.
    pub fn new(name: String) -> (r: Section)
        ensures
            r.wf(),
            r.name@ == name@,
            r.model() == Map::<Seq<char>, RegisterModel>::empty(),
    {
        let r = Section { name, slots: Vec::new() };
        assert(r.pairs() =~= Seq::<(Seq<char>, RegisterModel)>::empty());
        r
    }

    /// The position of the register named `name`, if there is one.
    pub fn find(&self, name: &String) -> (r: Option<usize>)
        requires
            self.wf(),
        ensures
            match r {
                Some(i) => i < self.slots@.len() && self.slots@[i as int].name@ == name@
                    && self.model().contains_key(name@)
                    && self.model()[name@] == self.slots@[i as int].register@,
                None => !self.model().contains_key(name@),
            },
    {
        let mut i: usize = 0;
        while i < self.slots.len()
            invariant
                self.wf(),
                i <= self.slots@.len(),
                forall|j: int| 0 <= j < i ==> self.slots@[j].name@ != name@,
            decreases self.slots@.len() - i,
        {
            if self.slots[i].name == *name {
                proof {
                    lemma_to_map_index(self.pairs(), i as int);
                }
                return Some(i);
            }
            i = i + 1;
        }
        proof {
            lemma_to_map_dom(self.pairs(), name@);
            if self.model().contains_key(name@) {
                let j = choose|j: int| 0 <= j < self.pairs().len() && self.pairs()[j].0 == name@;
                assert(self.pairs()[j] == self.slots@[j].pair());
            }
        }
        None
    }

    /// Sets the register `name` to `register`, creating it if absent.
    pub fn put(&mut self, name: String, register: Register)
        requires
            old(self).wf(),
        ensures
            final(self).wf(),
            final(self).name == old(self).name,
            final(self).model() == old(self).model().insert(name@, register@),
    {
        let ghost reg = register@;
        match self.find(&name) {
            Some(i) => {
                let ghost before = self.slots@;
                let slot = Slot { name, register };
                self.slots.set(i, slot);
                proof {
                    assert(slot_pairs(self.slots@) =~= slot_pairs(before).update(
                        i as int,
                        (slot_pairs(before)[i as int].0, reg),
                    ));
                    lemma_to_map_update(slot_pairs(before), i as int, reg);
                }
            },
            None => {
                let ghost before = self.slots@;
                let ghost key = name@;
                self.slots.push(Slot { name, register });
                proof {
                    assert(slot_pairs(self.slots@) =~= slot_pairs(before).push((key, reg)));
                    lemma_to_map_push(slot_pairs(before), key, reg);
                }
            },
        }
    }

    /// The list that register `j` holds, to change in place.
    pub fn values_mut(&mut self, j: usize) -> (r: &mut Vec<String>)
        requires
            old(self).wf(),
            j < old(self).slots@.len(),
            old(self).slots@[j as int].register is Values,
        ensures
            *r == old(self).slots@[j as int].register->Values_0,
            final(self).name == old(self).name,
            final(self).slots@ == old(self).slots@.update(
                j as int,
                Slot { name: old(self).slots@[j as int].name, register: Register::Values(*final(r)) },
            ),
    {
        let slot = &mut self.slots[j];
        match &mut slot.register {
            Register::Values(v) => v,
            Register::Fields(_) => vstd::pervasive::unreached(),
        }
    }

    /// Removes the register `name`; says whether it was there.
    pub fn take(&mut self, name: &String) -> (r: bool)
        requires
            old(self).wf(),
        ensures
            final(self).wf(),
            final(self).name == old(self).name,
            r == old(self).model().contains_key(name@),
            final(self).model() == old(self).model().remove(name@),
    {
        match self.find(name) {
            Some(i) => {
                let ghost before = self.slots@;
                self.slots.remove(i);
                proof {
                    assert(slot_pairs(self.slots@) =~= slot_pairs(before).remove(i as int));
                    lemma_to_map_remove(slot_pairs(before), i as int);
                }
                true
            },
            None => {
                assert(self.model() =~= self.model().remove(name@));
                false
            },
        }
    }
}

/// With distinct section names and well-formed sections, reading a listing
/// front to back gives the map that it describes.
pub proof fn lemma_sections_store_unique(s: Seq<Section>)
    requires
        keys_unique(section_pairs(s)),
        forall|i: int| 0 <= i < s.len() ==> (#[trigger] s[i]).wf(),
    ensures
        sections_store(s) == to_map(section_pairs(s)),
    decreases s.len(),
{
    if s.len() > 0 {
        let t = s.drop_last();
        let p = section_pairs(s);
        assert(section_pairs(t) =~= p.drop_last());
        crate::assoc::lemma_unique_drop_last(p);
        assert forall|i: int| 0 <= i < t.len() implies (#[trigger] t[i]).wf() by {
            assert(t[i] == s[i]);
        }
        lemma_sections_store_unique(t);
        let n = s.last().name@;
        lemma_to_map_dom(section_pairs(t), n);
        assert forall|i: int| 0 <= i < section_pairs(t).len() implies section_pairs(t)[i].0 != n by {
            assert(p[i].0 == section_pairs(t)[i].0);
            assert(p[s.len() - 1].0 == n);
        }
        let m = sections_store(t);
        assert(section_or_empty(m, n).union_prefer_right(s.last().model()) =~= s.last().model());
    }
}

/// The whole store: each section name to its registers, each register name to its value.
pub type StoreModel = Map<Seq<char>, Map<Seq<char>, RegisterModel>>;

/// The registers of section `s`, none if it is absent.
pub open spec fn section_or_empty(m: StoreModel, s: Seq<char>) -> Map<Seq<char>, RegisterModel> {
    if m.contains_key(s) {
        m[s]
    } else {
        Map::empty()
    }
}

/// `m` with register `r` of section `s` set to `v`, the section created if absent.
pub open spec fn with_register(m: StoreModel, s: Seq<char>, r: Seq<char>, v: RegisterModel) -> StoreModel {
    m.insert(s, section_or_empty(m, s).insert(r, v))
}

/// The entry that register `r` of section `s` holds before an update: empty if absent.
pub open spec fn entry_before(m: StoreModel, s: Seq<char>, r: Seq<char>) -> EntryModel {
    if section_or_empty(m, s).contains_key(r) {
        entry_of(section_or_empty(m, s)[r])
    } else {
        empty_entry()
    }
}

/// `m` after an update of register `r` of section `s` with `fields`.
pub open spec fn updated(m: StoreModel, s: Seq<char>, r: Seq<char>, fields: EntryModel) -> StoreModel {
    with_register(m, s, r, RegisterModel::Fields(merge(entry_before(m, s, r), fields)))
}

/// `m` after register `r` of section `s` was replaced by the list `vs`.
pub open spec fn replaced(m: StoreModel, s: Seq<char>, r: Seq<char>, vs: Seq<Seq<char>>) -> StoreModel {
    with_register(m, s, r, RegisterModel::Values(vs))
}

/// `m` after a clear of section `s`, or of its register `r` alone.
pub open spec fn cleared(m: StoreModel, s: Seq<char>, r: Option<Seq<char>>) -> StoreModel {
    match r {
        None => m.remove(s),
        Some(r) => if m.contains_key(s) {
            m.insert(s, m[s].remove(r))
        } else {
            m
        },
    }
}

/// Whether a clear of section `s` (or of its register `r`) removes anything.
pub open spec fn clear_removes(m: StoreModel, s: Seq<char>, r: Option<Seq<char>>) -> bool {
    match r {
        None => m.contains_key(s),
        Some(r) => m.contains_key(s) && m[s].contains_key(r),
    }
}

/// The list that register `r` of section `s` holds, empty if it holds none.
pub open spec fn list_before(m: StoreModel, s: Seq<char>, r: Seq<char>) -> Seq<Seq<char>> {
    if section_or_empty(m, s).contains_key(r) {
        match section_or_empty(m, s)[r] {
            RegisterModel::Values(vs) => vs,
            RegisterModel::Fields(_) => Seq::empty(),
        }
    } else {
        Seq::empty()
    }
}

/// The name a clear is narrowed to, if any.
pub open spec fn name_model(o: Option<&String>) -> Option<Seq<char>> {
    match o {
        Some(x) => Some(x@),
        None => None,
    }
}

/// The characters that structured text treats as blank space.
pub open spec fn is_space(c: char) -> bool {
    c == ' ' || c == '\t' || c == '\n' || c == '\r'
}

/// Text with nothing in it but blank space (or nothing at all).
pub open spec fn is_blank(s: Seq<char>) -> bool {
    forall|i: int| 0 <= i < s.len() ==> is_space(#[trigger] s[i])
}

/// Whether `text` holds nothing but blank space.
pub fn blank(text: &str) -> (r: bool)
    ensures
        r == is_blank(text@),
{
    let n = text.unicode_len();
    let mut i: usize = 0;
    while i < n
        invariant
            n == text@.len(),
            i <= n,
            forall|j: int| 0 <= j < i ==> is_space(#[trigger] text@[j]),
        decreases n - i,
    {
        let c = text.get_char(i);
        if !(c == ' ' || c == '\t' || c == '\n' || c == '\r') {
            return false;
        }
        i = i + 1;
    }
    true
}

/// The store that a listing of sections describes, read front to back: a
/// section named twice gets the registers of both, the later one winning.
pub open spec fn sections_store(s: Seq<Section>) -> StoreModel
    decreases s.len(),
{
    if s.len() == 0 {
        Map::empty()
    } else {
        let m = sections_store(s.drop_last());
        let x = s.last();
        m.insert(x.name@, section_or_empty(m, x.name@).union_prefer_right(x.model()))
    }
}

pub open spec fn section_pairs(s: Seq<Section>) -> Seq<(Seq<char>, Map<Seq<char>, RegisterModel>)> {
    s.map_values(|x: Section| (x.name@, x.model()))
}

/// The store of sections of registers, held in memory between a load and a save.
pub struct HarpConnection {
    sections: Vec<Section>,
}

impl View for HarpConnection {
    type V = StoreModel;

    closed spec fn view(&self) -> StoreModel {
        to_map(section_pairs(self.sections@))
    }
}

impl HarpConnection {
    /// Section names are distinct, and so are register names within each section.
    pub closed spec fn wf(self) -> bool {
        &&& keys_unique(section_pairs(self.sections@))
        &&& forall|i: int| 0 <= i < self.sections@.len() ==> (#[trigger] self.sections@[i]).wf()
    }

    /// An empty store.
    pub fn new() -> (r: HarpConnection)
        ensures
            r.wf(),
            r@ == StoreModel::empty(),
    {
        let r = HarpConnection { sections: Vec::new() };
        assert(section_pairs(r.sections@) =~= Seq::empty());
        r
    }

    /// The sections in the order they are kept.
    pub closed spec fn listing(self) -> Seq<Section> {
        self.sections@
    }

    /// The sections in the order they are kept.
    pub fn sections(&self) -> (r: &Vec<Section>)
        requires
            self.wf(),
        ensures
            r@ == self.listing(),
            to_map(section_pairs(r@)) == self@,
            keys_unique(section_pairs(r@)),
            forall|i: int| 0 <= i < r@.len() ==> (#[trigger] r@[i]).wf(),
    {
        &self.sections
    }

    fn find_section(&self, name: &String) -> (r: Option<usize>)
        requires
            self.wf(),
        ensures
            match r {
                Some(i) => i < self.sections@.len() && self.sections@[i as int].name@ == name@
                    && self@.contains_key(name@)
                    && self@[name@] == self.sections@[i as int].model(),
                None => !self@.contains_key(name@),
            },
    {
        let mut i: usize = 0;
        while i < self.sections.len()
            invariant
                self.wf(),
                i <= self.sections@.len(),
                forall|j: int| 0 <= j < i ==> self.sections@[j].name@ != name@,
            decreases self.sections@.len() - i,
        {
            if self.sections[i].name == *name {
                proof {
                    lemma_to_map_index(section_pairs(self.sections@), i as int);
                }
                return Some(i);
            }
            i = i + 1;
        }
        proof {
            let p = section_pairs(self.sections@);
            lemma_to_map_dom(p, name@);
            if self@.contains_key(name@) {
                let j = choose|j: int| 0 <= j < p.len() && p[j].0 == name@;
                assert(p[j].0 == self.sections@[j].name@);
            }
        }
        None
    }

    /// Makes sure a section named `name` exists, creating it empty if absent.
    pub fn ensure_section(&mut self, name: String)
        requires
            old(self).wf(),
        ensures
            final(self).wf(),
            final(self)@ == old(self)@.insert(name@, section_or_empty(old(self)@, name@)),
    {
        self.section_index(name);
    }

    fn section_index(&mut self, name: String) -> (r: usize)
        requires
            old(self).wf(),
        ensures
            final(self).wf(),
            final(self)@ == old(self)@.insert(name@, section_or_empty(old(self)@, name@)),
            r < final(self).sections@.len(),
            final(self).sections@[r as int].name@ == name@,
    {
        match self.find_section(&name) {
            Some(i) => {
                assert(self@ =~= self@.insert(name@, section_or_empty(self@, name@)));
                i
            },
            None => {
                let ghost before = self.sections@;
                let sec = Section::new(name);
                let ghost pair = (sec.name@, sec.model());
                self.sections.push(sec);
                proof {
                    assert(section_pairs(self.sections@) =~= section_pairs(before).push(pair));
                    lemma_to_map_push(section_pairs(before), pair.0, pair.1);
                    assert forall|i: int| 0 <= i < self.sections@.len() implies (
                    #[trigger] self.sections@[i]).wf() by {
                        if i < before.len() {
                            assert(self.sections@[i] == before[i]);
                        }
                    }
                }
                (self.sections.len() - 1) as usize
            },
        }
    }

    /// Sets register `register` of section `section` to `value`, creating both if absent.
    pub fn put(&mut self, section: String, register: String, value: Register)
        requires
            old(self).wf(),
        ensures
            final(self).wf(),
            final(self)@ == with_register(old(self)@, section@, register@, value@),
    {
        let ghost m = self@;
        let ghost s = section@;
        let i = self.section_index(section);
        let ghost mid = self.sections@;
        proof {
            lemma_to_map_index(section_pairs(mid), i as int);
        }
        let mut sec = self.sections.remove(i);
        sec.put(register, value);
        self.sections.insert(i, sec);
        proof {
            let newp = (sec.name@, sec.model());
            assert(section_pairs(self.sections@) =~= section_pairs(mid).update(i as int, newp));
            lemma_to_map_update(section_pairs(mid), i as int, sec.model());
            assert forall|j: int| 0 <= j < self.sections@.len() implies (
            #[trigger] self.sections@[j]).wf() by {
                if j != i {
                    assert(self.sections@[j] == mid[j]);
                }
            }
            assert(self@ =~= with_register(m, s, register@, value@));
        }
    }

    /// The list that register `register` of section `section` holds, to change
    /// in place; the section and the register are created if absent. A register
    /// that holds no list (absent, or an entry) becomes an empty list first.
    pub fn entry_mut(&mut self, section: String, register: String) -> (r: &mut Vec<String>)
        requires
            old(self).wf(),
        ensures
            texts_model(r@) == list_before(old(self)@, section@, register@),
            final(self).wf(),
            final(self)@ == replaced(old(self)@, section@, register@, texts_model(final(r)@)),
    {
        let ghost m = self@;
        let is_list = match self.find_section(&section) {
            None => false,
            Some(i) => {
                proof {
                    assert(self.sections@[i as int].wf());
                }
                match self.sections[i].find(&register) {
                    None => false,
                    Some(j) => self.sections[i].slots[j].register.is_values(),
                }
            },
        };
        if !is_list {
            self.put(section.clone(), register.clone(), Register::Values(Vec::new()));
            assert(texts_model(Seq::<String>::empty()) =~= Seq::<Seq<char>>::empty());
        }
        let ghost mid = self.sections@;
        let i = match self.find_section(&section) {
            Some(i) => i,
            None => vstd::pervasive::unreached(),
        };
        proof {
            assert(self.sections@[i as int].wf());
        }
        let j = match self.sections[i].find(&register) {
            Some(j) => j,
            None => vstd::pervasive::unreached(),
        };
        proof {
            lemma_to_map_index(section_pairs(mid), i as int);
        }
        let ghost old_sec = self.sections@[i as int];
        let ghost name = register@;
        let ghost sname = section@;
        let sec = &mut self.sections[i];
        let r = sec.values_mut(j);
        proof {
            let v = RegisterModel::Values(texts_model(final(r)@));
            assert(Register::Values(*final(r))@ == v);
            let new_slot = Slot { name: old_sec.slots@[j as int].name, register: Register::Values(*final(r)) };
            assert forall|fs: Section|
                fs.name == old_sec.name && fs.slots@ == old_sec.slots@.update(j as int, new_slot)
                implies ({
                let after = #[trigger] mid.update(i as int, fs);
                &&& keys_unique(section_pairs(after))
                &&& (forall|k: int| 0 <= k < after.len() ==> (#[trigger] after[k]).wf())
                &&& to_map(section_pairs(after)) == replaced(m, sname, name, texts_model(final(r)@))
            }) by {
                assert(slot_pairs(fs.slots@) =~= slot_pairs(old_sec.slots@).update(
                    j as int,
                    (slot_pairs(old_sec.slots@)[j as int].0, v),
                ));
                lemma_to_map_update(slot_pairs(old_sec.slots@), j as int, v);
                let after = mid.update(i as int, fs);
                assert(section_pairs(after) =~= section_pairs(mid).update(
                    i as int,
                    (section_pairs(mid)[i as int].0, fs.model()),
                ));
                lemma_to_map_update(section_pairs(mid), i as int, fs.model());
                assert forall|k: int| 0 <= k < after.len() implies (#[trigger] after[k]).wf() by {
                    if k != i {
                        assert(after[k] == mid[k]);
                    }
                }
                assert(fs.model() =~= section_or_empty(m, sname).insert(name, v));
                assert(to_map(section_pairs(after)) =~= replaced(
                    m,
                    sname,
                    name,
                    texts_model(final(r)@),
                ));
            }
        }
        r
    }

    /// The store that `sections` describes (see [`sections_store`]).
    pub fn from_sections(sections: &Vec<Section>) -> (r: HarpConnection)
        ensures
            r.wf(),
            r@ == sections_store(sections@),
    {
        let mut harp = HarpConnection::new();
        let mut i: usize = 0;
        while i < sections.len()
            invariant
                i <= sections@.len(),
                harp.wf(),
                harp@ == sections_store(sections@.take(i as int)),
            decreases sections@.len() - i,
        {
            let sec = &sections[i];
            let ghost before = harp@;
            let ghost name = sec.name@;
            harp.ensure_section(sec.name.clone());
            let ghost base = section_or_empty(before, name);
            assert(harp@ == before.insert(name, base));
            assert(slot_pairs(sec.slots@.take(0)) =~= Seq::<(Seq<char>, RegisterModel)>::empty());
            assert(base.union_prefer_right(to_map(slot_pairs(sec.slots@.take(0)))) =~= base);
            let mut k: usize = 0;
            while k < sec.slots.len()
                invariant
                    k <= sec.slots@.len(),
                    i < sections@.len(),
                    harp.wf(),
                    sec == sections@[i as int],
                    name == sec.name@,
                    harp@ == before.insert(
                        name,
                        base.union_prefer_right(to_map(slot_pairs(sec.slots@.take(k as int)))),
                    ),
                decreases sec.slots@.len() - k,
            {
                let slot = &sec.slots[k];
                let ghost prev = to_map(slot_pairs(sec.slots@.take(k as int)));
                harp.put(sec.name.clone(), slot.name.clone(), slot.register.duplicate());
                proof {
                    assert(slot_pairs(sec.slots@.take(k + 1)) =~= slot_pairs(sec.slots@.take(k as int)).push(
                        slot.pair(),
                    ));
                    assert(slot_pairs(sec.slots@.take(k + 1)).drop_last() =~= slot_pairs(sec.slots@.take(k as int)));
                    assert(base.union_prefer_right(to_map(slot_pairs(sec.slots@.take(k + 1))))
                        =~= base.union_prefer_right(prev).insert(slot.name@, slot.register@));
                    assert(harp@ =~= before.insert(
                        name,
                        base.union_prefer_right(to_map(slot_pairs(sec.slots@.take(k + 1)))),
                    ));
                }
                k = k + 1;
            }
            proof {
                assert(sec.slots@.take(sec.slots@.len() as int) =~= sec.slots@);
                assert(sections@.take(i + 1).drop_last() =~= sections@.take(i as int));
                assert(sections@.take(i + 1).last() == sections@[i as int]);
            }
            i = i + 1;
        }
        assert(sections@.take(sections@.len() as int) =~= sections@);
        harp
    }

    /// Rebuilding a store from its own listing gives back the same store: the
    /// sections that [`HarpConnection::sections`] hands out describe the store
    /// exactly, under [`HarpConnection::from_sections`].
    pub proof fn lemma_listing_round_trip(self)
        requires
            self.wf(),
        ensures
            sections_store(self.listing()) == self@,
    {
        lemma_sections_store_unique(self.sections@);
    }

    /// Turns the text of the stored document into a store. `decoded` is what
    /// decoding that text gave, `None` if it was not valid. Blank text is an
    /// empty store, whatever `decoded` is.
    pub fn build(text: &str, decoded: Option<HarpConnection>) -> (r: Result<HarpConnection, Error>)
        requires
            decoded matches Some(d) ==> d.wf(),
        ensures
            r matches Ok(c) ==> c.wf(),
            is_blank(text@) ==> (r matches Ok(c) && c@ == StoreModel::empty()),
            !is_blank(text@) && decoded is None ==> r == Err::<HarpConnection, Error>(
                Error::DeserializeData,
            ),
            !is_blank(text@) && decoded is Some ==> r == Ok::<HarpConnection, Error>(
                decoded->Some_0,
            ),
    {
        if blank(text) {
            Ok(HarpConnection::new())
        } else {
            match decoded {
                Some(d) => Ok(d),
                None => Err(Error::DeserializeData),
            }
        }
    }

    fn current_entry(&self, section: &String, register: &String) -> (r: Entry)
        requires
            self.wf(),
        ensures
            r@ == entry_before(self@, section@, register@),
    {
        match self.find_section(section) {
            None => Entry::new(),
            Some(i) => {
                proof {
                    assert(self.sections@[i as int].wf());
                }
                match self.sections[i].find(register) {
                    None => Entry::new(),
                    Some(j) => match &self.sections[i].slots[j].register {
                        Register::Fields(e) => e.merged(&Entry::new()),
                        Register::Values(_) => Entry::new(),
                    },
                }
            },
        }
    }

    /// Sets the fields that `fields` sets on register `register` of section
    /// `section`, keeping its other fields; creates the section and the
    /// register if absent. An update that sets no field is refused.
    pub fn update(&mut self, section: String, register: String, fields: Entry) -> (r: Result<
        (),
        Error,
    >)
        requires
            old(self).wf(),
        ensures
            final(self).wf(),
            r is Err <==> fields@ == empty_entry(),
            r is Err ==> r == Err::<(), Error>(Error::NoFieldsSpecified) && final(self)@ == old(
                self,
            )@,
            r is Ok ==> final(self)@ == updated(old(self)@, section@, register@, fields@),
    {
        if fields.is_empty() {
            return Err(Error::NoFieldsSpecified);
        }
        let base = self.current_entry(&section, &register);
        let merged = base.merged(&fields);
        self.put(section, register, Register::Fields(merged));
        Ok(())
    }

    /// Makes register `register` of section `section` the list `values`,
    /// whatever it held; creates the section and the register if absent.
    pub fn replace(&mut self, section: String, register: String, values: Vec<String>)
        requires
            old(self).wf(),
        ensures
            final(self).wf(),
            final(self)@ == replaced(old(self)@, section@, register@, texts_model(values@)),
    {
        self.put(section, register, Register::Values(values));
    }

    /// Removes register `register` of section `section`, or with no register
    /// the whole section. Clearing what is absent changes nothing. Says whether
    /// anything was removed, that is whether the store needs writing back.
    pub fn clear(&mut self, section: &String, register: Option<&String>) -> (r: bool)
        requires
            old(self).wf(),
        ensures
            final(self).wf(),
            final(self)@ == cleared(old(self)@, section@, name_model(register)),
            r == clear_removes(old(self)@, section@, name_model(register)),
    {
        let ghost m = self@;
        match self.find_section(section) {
            None => {
                assert(m =~= m.remove(section@));
                false
            },
            Some(i) => {
                let ghost before = self.sections@;
                proof {
                    lemma_to_map_index(section_pairs(before), i as int);
                }
                match register {
                    None => {
                        self.sections.remove(i);
                        proof {
                            assert(section_pairs(self.sections@) =~= section_pairs(before).remove(
                                i as int,
                            ));
                            lemma_to_map_remove(section_pairs(before), i as int);
                            assert forall|j: int| 0 <= j < self.sections@.len() implies (
                            #[trigger] self.sections@[j]).wf() by {
                                let k = if j < i { j } else { j + 1 };
                                assert(self.sections@[j] == before[k]);
                            }
                        }
                        true
                    },
                    Some(reg) => {
                        let mut sec = self.sections.remove(i);
                        let removed = sec.take(reg);
                        self.sections.insert(i, sec);
                        proof {
                            let newp = (sec.name@, sec.model());
                            assert(section_pairs(self.sections@) =~= section_pairs(before).update(
                                i as int,
                                newp,
                            ));
                            lemma_to_map_update(section_pairs(before), i as int, sec.model());
                            assert forall|j: int| 0 <= j < self.sections@.len() implies (
                            #[trigger] self.sections@[j]).wf() by {
                                if j != i {
                                    assert(self.sections@[j] == before[j]);
                                }
                            }
                        }
                        removed
                    },
                }
            },
        }
    }

    /// The values of register `register` of section `section`, as selected by `selectors`.
    pub fn get(&self, section: &String, register: &String, selectors: Selectors) -> (r: Result<
        Vec<Value>,
        Error,
    >)
        requires
            self.wf(),
        ensures
            !self@.contains_key(section@) <==> r == Err::<Vec<Value>, Error>(Error::SectionNotFound),
            (self@.contains_key(section@) && !self@[section@].contains_key(register@)) <==> r
                == Err::<Vec<Value>, Error>(Error::RegisterNotFound),
            r is Ok <==> self@.contains_key(section@) && self@[section@].contains_key(register@),
            match r {
                Ok(v) => values_model(v@) == rendered(self@[section@][register@], selectors),
                Err(_) => true,
            },
    {
        match self.find_section(section) {
            None => Err(Error::SectionNotFound),
            Some(i) => {
                proof {
                    assert(self.sections@[i as int].wf());
                }
                match self.sections[i].find(register) {
                    None => Err(Error::RegisterNotFound),
                    Some(j) => Ok(render(&self.sections[i].slots[j].register, selectors)),
                }
            },
        }
    }
}

} // verus!
