use crate::document::{parse_document, parsed_json, pretty_json, render_document, Document, DocumentView};
use crate::error::SlatusError;
use vstd::prelude::*;

verus! {

/// The display text and emoji of one preset.
#[derive(Debug, Clone)]
pub struct SavedStatus {
    pub text: String,
    pub emoji: String,
}

impl View for SavedStatus {
    /// `(text, emoji)`
    type V = (Seq<char>, Seq<char>);

    open spec fn view(&self) -> (Seq<char>, Seq<char>) {
        (self.text@, self.emoji@)
    }
}

/// One stored entry, abstractly: a name and its `(text, emoji)`.
pub type EntryView = (Seq<char>, (Seq<char>, Seq<char>));

/// The mapping that a sequence of entries denotes: a later entry replaces an
/// earlier one of the same name.
pub open spec fn map_of(s: Seq<EntryView>) -> Map<Seq<char>, (Seq<char>, Seq<char>)>
    decreases s.len(),
{
    if s.len() == 0 {
        Map::empty()
    } else {
        map_of(s.drop_last()).insert(s.last().0, s.last().1)
    }
}

/// No name occurs twice.
pub open spec fn names_distinct(s: Seq<EntryView>) -> bool {
    forall|i: int, j: int| 0 <= i < s.len() && 0 <= j < s.len() && i != j ==> s[i].0 != s[j].0
}

pub proof fn lemma_map_of_contains(s: Seq<EntryView>, k: Seq<char>)
    ensures
        map_of(s).contains_key(k) <==> exists|i: int| 0 <= i < s.len() && s[i].0 == k,
    decreases s.len(),
{
    if s.len() > 0 {
        let p = s.drop_last();
        lemma_map_of_contains(p, k);
        if map_of(s).contains_key(k) && k != s.last().0 {
            let i = choose|i: int| 0 <= i < p.len() && p[i].0 == k;
            assert(s[i].0 == k);
        }
        if exists|i: int| 0 <= i < s.len() && s[i].0 == k {
            let i = choose|i: int| 0 <= i < s.len() && s[i].0 == k;
            if i < s.len() - 1 {
                assert(p[i].0 == k);
            }
        }
    }
}

pub proof fn lemma_map_of_value(s: Seq<EntryView>, i: int)
    requires
        names_distinct(s),
        0 <= i < s.len(),
    ensures
        map_of(s).contains_key(s[i].0),
        map_of(s)[s[i].0] == s[i].1,
    decreases s.len(),
{
    lemma_map_of_contains(s, s[i].0);
    if i < s.len() - 1 {
        let p = s.drop_last();
        assert(s[i].0 != s[s.len() - 1].0);
        assert(p[i] == s[i]);
        lemma_map_of_value(p, i);
    }
}

/// Replacing the value of an entry in place updates the mapping at its name.
pub proof fn lemma_map_of_update(s: Seq<EntryView>, i: int, v: (Seq<char>, Seq<char>))
    requires
        names_distinct(s),
        0 <= i < s.len(),
    ensures
        names_distinct(s.update(i, (s[i].0, v))),
        map_of(s.update(i, (s[i].0, v))) == map_of(s).insert(s[i].0, v),
{
    let t = s.update(i, (s[i].0, v));
    let target = map_of(s).insert(s[i].0, v);
    assert forall|k: Seq<char>| #[trigger] map_of(t).contains_key(k) <==> target.contains_key(k) by {
        lemma_map_of_contains(t, k);
        lemma_map_of_contains(s, k);
        if exists|j: int| 0 <= j < s.len() && s[j].0 == k {
            let j = choose|j: int| 0 <= j < s.len() && s[j].0 == k;
            assert(t[j].0 == k);
        }
        if exists|j: int| 0 <= j < t.len() && t[j].0 == k {
            let j = choose|j: int| 0 <= j < t.len() && t[j].0 == k;
            assert(s[j].0 == k);
        }
    }
    assert forall|k: Seq<char>| #[trigger] map_of(t).contains_key(k) implies map_of(t)[k] == target[k] by {
        lemma_map_of_contains(t, k);
        let j = choose|j: int| 0 <= j < t.len() && t[j].0 == k;
        lemma_map_of_value(t, j);
        if j != i {
            lemma_map_of_value(s, j);
        }
    }
    assert(map_of(t) =~= target);
}

/// Dropping an entry removes its name from the mapping.
pub proof fn lemma_map_of_remove(s: Seq<EntryView>, i: int)
    requires
        names_distinct(s),
        0 <= i < s.len(),
    ensures
        names_distinct(s.remove(i)),
        map_of(s.remove(i)) == map_of(s).remove(s[i].0),
{
    let t = s.remove(i);
    let target = map_of(s).remove(s[i].0);
    assert forall|a: int, b: int| 0 <= a < t.len() && 0 <= b < t.len() && a != b implies t[a].0
        != t[b].0 by {
        let a2 = if a < i { a } else { a + 1 };
        let b2 = if b < i { b } else { b + 1 };
        assert(t[a] == s[a2] && t[b] == s[b2]);
    }
    assert forall|k: Seq<char>| #[trigger] map_of(t).contains_key(k) <==> target.contains_key(k) by {
        lemma_map_of_contains(t, k);
        lemma_map_of_contains(s, k);
        if exists|j: int| 0 <= j < s.len() && s[j].0 == k && k != s[i].0 {
            let j = choose|j: int| 0 <= j < s.len() && s[j].0 == k && k != s[i].0;
            if j < i {
                assert(t[j].0 == k);
            } else {
                assert(t[j - 1].0 == k);
            }
        }
        if exists|j: int| 0 <= j < t.len() && t[j].0 == k {
            let j = choose|j: int| 0 <= j < t.len() && t[j].0 == k;
            let j2 = if j < i { j } else { j + 1 };
            assert(s[j2].0 == k);
        }
    }
    assert forall|k: Seq<char>| #[trigger] map_of(t).contains_key(k) implies map_of(t)[k] == target[k] by {
        lemma_map_of_contains(t, k);
        let j = choose|j: int| 0 <= j < t.len() && t[j].0 == k;
        let j2 = if j < i { j } else { j + 1 };
        assert(t[j] == s[j2]);
        lemma_map_of_value(t, j);
        lemma_map_of_value(s, j2);
    }
    assert(map_of(t) =~= target);
}

/// A new name appended at the end extends the mapping.
pub proof fn lemma_map_of_push(s: Seq<EntryView>, e: EntryView)
    requires
        names_distinct(s),
        !map_of(s).contains_key(e.0),
    ensures
        names_distinct(s.push(e)),
        map_of(s.push(e)) == map_of(s).insert(e.0, e.1),
{
    lemma_map_of_contains(s, e.0);
    assert(s.push(e).drop_last() == s);
    let t = s.push(e);
    assert forall|a: int, b: int| 0 <= a < t.len() && 0 <= b < t.len() && a != b implies t[a].0
        != t[b].0 by {
        if a < s.len() && b < s.len() {
            assert(t[a] == s[a] && t[b] == s[b]);
        } else if a < s.len() {
            assert(t[a] == s[a]);
        } else {
            assert(t[b] == s[b]);
        }
    }
}

/// The presets, keyed by name. Each name occurs once.
pub struct StatusMap {
    entries: Vec<(String, SavedStatus)>,
}

impl View for StatusMap {
    type V = Map<Seq<char>, (Seq<char>, Seq<char>)>;

    closed spec fn view(&self) -> Map<Seq<char>, (Seq<char>, Seq<char>)> {
        map_of(self.entries_view())
    }
}

impl StatusMap {
    /// The entries in storage order.
    pub closed spec fn entries_view(&self) -> Seq<EntryView> {
        self.entries@.map_values(|e: (String, SavedStatus)| (e.0@, e.1@))
    }

    pub closed spec fn wf(&self) -> bool {
        names_distinct(self.entries_view())
    }

    /// An empty mapping.
    pub fn new() -> (r: StatusMap)
        ensures
            r.wf(),
            r.view() == Map::<Seq<char>, (Seq<char>, Seq<char>)>::empty(),
    {
        let r = StatusMap { entries: Vec::new() };
        assert(r.entries_view().len() == 0);
        r
    }

    pub fn len(&self) -> (r: usize)
        requires
            self.wf(),
        ensures
            r == self.view().len(),
    {
        proof {
            self.lemma_len();
        }
        self.entries.len()
    }

    pub fn is_empty(&self) -> (r: bool)
        requires
            self.wf(),
        ensures
            r == (self.view().len() == 0),
            r == (self.view() == Map::<Seq<char>, (Seq<char>, Seq<char>)>::empty()),
    {
        proof {
            self.lemma_len();
            if self.view().len() == 0 {
                assert(self.view() =~= Map::<Seq<char>, (Seq<char>, Seq<char>)>::empty());
            }
        }
        self.entries.len() == 0
    }

    proof fn lemma_len(&self)
        requires
            self.wf(),
        ensures
            self.view().dom().finite(),
            self.view().len() == self.entries@.len(),
    {
        lemma_map_of_len(self.entries_view());
    }

    /// The presets with their names, in storage order.
    pub fn entries(&self) -> (r: &Vec<(String, SavedStatus)>)
        ensures
            r@.map_values(|e: (String, SavedStatus)| (e.0@, e.1@)) == self.entries_view(),
    {
        &self.entries
    }

    /// The position of `name` among the entries, if it is there.
    fn find(&self, name: &String) -> (r: Option<usize>)
        requires
            self.wf(),
        ensures
            r is None ==> !self.view().contains_key(name@),
            r matches Some(i) ==> i < self.entries@.len() && self.entries_view()[i as int].0
                == name@,
    {
        let mut i: usize = 0;
        while i < self.entries.len()
            invariant
                i <= self.entries@.len(),
                forall|j: int| 0 <= j < i ==> self.entries_view()[j].0 != name@,
            decreases self.entries@.len() - i,
        {
            if self.entries[i].0 == *name {
                return Some(i);
            }
            i = i + 1;
        }
        proof {
            lemma_map_of_contains(self.entries_view(), name@);
        }
        None
    }

    /// The preset stored under `name`.
    pub fn get(&self, name: &String) -> (r: Option<&SavedStatus>)
        requires
            self.wf(),
        ensures
            r is Some <==> self.view().contains_key(name@),
            r matches Some(s) ==> s@ == self.view()[name@],
    {
        match self.find(name) {
            Some(i) => {
                proof {
                    lemma_map_of_value(self.entries_view(), i as int);
                }
                Some(&self.entries[i].1)
            },
            None => None,
        }
    }

    /// Stores `status` under `name`, replacing any preset of that name.
    pub fn insert(&mut self, name: String, status: SavedStatus)
        requires
            old(self).wf(),
        ensures
            final(self).wf(),
            final(self).view() == old(self).view().insert(name@, status@),
    {
        match self.find(&name) {
            Some(i) => {
                proof {
                    lemma_map_of_update(self.entries_view(), i as int, status@);
                }
                self.entries.set(i, (name, status));
                assert(self.entries_view() =~= old(self).entries_view().update(
                    i as int,
                    (name@, status@),
                ));
            },
            None => {
                proof {
                    lemma_map_of_push(self.entries_view(), (name@, status@));
                }
                self.entries.push((name, status));
                assert(self.entries_view() =~= old(self).entries_view().push((name@, status@)));
            },
        }
    }

    /// Deletes the preset stored under `name`; tells whether there was one.
    pub fn remove(&mut self, name: &String) -> (r: bool)
        requires
            old(self).wf(),
        ensures
            final(self).wf(),
            r == old(self).view().contains_key(name@),
            final(self).view() == old(self).view().remove(name@),
    {
        match self.find(name) {
            Some(i) => {
                proof {
                    lemma_map_of_value(self.entries_view(), i as int);
                    lemma_map_of_remove(self.entries_view(), i as int);
                }
                self.entries.remove(i);
                assert(self.entries_view() =~= old(self).entries_view().remove(i as int));
                true
            },
            None => {
                assert(self.view() =~= old(self).view().remove(name@));
                false
            },
        }
    }
}

pub proof fn lemma_map_of_len(s: Seq<EntryView>)
    requires
        names_distinct(s),
    ensures
        map_of(s).dom().finite(),
        map_of(s).len() == s.len(),
    decreases s.len(),
{
    if s.len() > 0 {
        let p = s.drop_last();
        assert(names_distinct(p)) by {
            assert forall|a: int, b: int| 0 <= a < p.len() && 0 <= b < p.len() && a != b implies p[a].0
                != p[b].0 by {
                assert(p[a] == s[a] && p[b] == s[b]);
            }
        }
        lemma_map_of_len(p);
        lemma_map_of_contains(p, s.last().0);
        if map_of(p).contains_key(s.last().0) {
            let j = choose|j: int| 0 <= j < p.len() && p[j].0 == s.last().0;
            assert(s[j].0 == s[s.len() - 1].0);
        }
    }
}


/// The value of the first member named `key`.
pub open spec fn field_of(fields: Seq<(Seq<char>, Seq<char>)>, key: Seq<char>) -> Option<Seq<char>>
    decreases fields.len(),
{
    if fields.len() == 0 {
        None
    } else if fields[0].0 == key {
        Some(fields[0].1)
    } else {
        field_of(fields.skip(1), key)
    }
}

/// A document member describes a preset when it has a text and an emoji.
pub open spec fn describes_preset(fields: Seq<(Seq<char>, Seq<char>)>) -> bool {
    field_of(fields, "text"@) is Some && field_of(fields, "emoji"@) is Some
}

/// The entries that a document lists, in its order.
pub open spec fn entries_of(d: DocumentView) -> Seq<EntryView> {
    d.map_values(
        |m: (Seq<char>, Seq<(Seq<char>, Seq<char>)>)|
            (m.0, (field_of(m.1, "text"@)->0, field_of(m.1, "emoji"@)->0)),
    )
}

/// The presets a document holds: none when a member lacks a text or an emoji.
pub open spec fn statuses_of(d: DocumentView) -> Option<Map<Seq<char>, (Seq<char>, Seq<char>)>> {
    if forall|i: int| 0 <= i < d.len() ==> describes_preset(#[trigger] d[i].1) {
        Some(map_of(entries_of(d)))
    } else {
        None
    }
}

/// The document that stores the given entries: each name with its text and emoji.
pub open spec fn document_of(s: Seq<EntryView>) -> DocumentView {
    s.map_values(|e: EntryView| (e.0, seq![("text"@, e.1.0), ("emoji"@, e.1.1)]))
}

/// What reading the preset file yields; `None` stands for a file that does not exist.
pub open spec fn loaded(contents: Option<&str>) -> Option<Map<Seq<char>, (Seq<char>, Seq<char>)>> {
    match contents {
        None => Some(Map::empty()),
        Some(t) => match parsed_json(t@) {
            None => None,
            Some(d) => statuses_of(d),
        },
    }
}

fn find_field<'a>(fields: &'a Vec<(String, String)>, key: &String) -> (r: Option<&'a String>)
    ensures
        r is None ==> field_of(fields.deep_view(), key@) is None,
        r matches Some(v) ==> field_of(fields.deep_view(), key@) == Some(v@),
{
    let ghost fv = fields.deep_view();
    let mut i: usize = 0;
    assert(fv.skip(0) =~= fv);
    while i < fields.len()
        invariant
            i <= fields@.len(),
            fv == fields.deep_view(),
            field_of(fv, key@) == field_of(fv.skip(i as int), key@),
        decreases fields@.len() - i,
    {
        assert(fv.skip(i as int)[0] == fv[i as int]);
        assert(fv.skip(i as int).skip(1) =~= fv.skip(i + 1));
        if fields[i].0 == *key {
            return Some(&fields[i].1);
        }
        i = i + 1;
    }
    None
}

impl StatusMap {
    /// The document that stores these presets.
    pub fn to_document(&self) -> (r: Document)
        requires
            self.wf(),
        ensures
            r.deep_view() == document_of(self.entries_view()),
    {
        let mut r: Document = Vec::new();
        let mut i: usize = 0;
        let text_key = String::from_str("text");
        let emoji_key = String::from_str("emoji");
        while i < self.entries.len()
            invariant
                i <= self.entries@.len(),
                text_key@ == "text"@,
                emoji_key@ == "emoji"@,
                r.deep_view() =~= document_of(self.entries_view()).take(i as int),
            decreases self.entries@.len() - i,
        {
            let name = self.entries[i].0.clone();
            let fields = vec![
                (text_key.clone(), self.entries[i].1.text.clone()),
                (emoji_key.clone(), self.entries[i].1.emoji.clone()),
            ];
            assert(fields.deep_view() =~= seq![("text"@, self.entries_view()[i as int].1.0), ("emoji"@, self.entries_view()[i as int].1.1)]);
            let ghost prev = r.deep_view();
            let ghost entry = (name@, fields.deep_view());
            r.push((name, fields));
            assert(r.deep_view() =~= prev.push(entry));
            assert(document_of(self.entries_view())[i as int] == entry);
            assert(document_of(self.entries_view()).take(i + 1) =~= document_of(
                self.entries_view(),
            ).take(i as int).push(entry));
            i = i + 1;
        }
        r
    }

    /// The presets a document holds, or `None` when a member lacks a text or an emoji.
    pub fn from_document(doc: &Document) -> (r: Option<StatusMap>)
        ensures
            r is Some <==> statuses_of(doc.deep_view()) is Some,
            r matches Some(m) ==> m.wf() && m@ == statuses_of(doc.deep_view())->0,
    {
        let ghost d = doc.deep_view();
        let ghost es = entries_of(d);
        let text_key = String::from_str("text");
        let emoji_key = String::from_str("emoji");
        let mut m = StatusMap::new();
        let mut i: usize = 0;
        while i < doc.len()
            invariant
                i <= doc@.len(),
                d == doc.deep_view(),
                es == entries_of(d),
                text_key@ == "text"@,
                emoji_key@ == "emoji"@,
                m.wf(),
                m@ == map_of(es.take(i as int)),
                forall|j: int| 0 <= j < i ==> describes_preset(#[trigger] d[j].1),
            decreases doc@.len() - i,
        {
            let fields = &doc[i].1;
            assert(fields.deep_view() == d[i as int].1);
            let text = find_field(fields, &text_key);
            let emoji = find_field(fields, &emoji_key);
            match (text, emoji) {
                (Some(t), Some(e)) => {
                    let status = SavedStatus { text: t.clone(), emoji: e.clone() };
                    m.insert(doc[i].0.clone(), status);
                    assert(es.take(i + 1).drop_last() =~= es.take(i as int));
                    i = i + 1;
                },
                _ => {
                    return None;
                },
            }
        }
        assert(es.take(doc@.len() as int) =~= es);
        Some(m)
    }
}

/// Reads the presets from the preset file's contents; `None` stands for a file
/// that does not exist, which holds no presets.
pub fn load_statuses(contents: Option<&str>) -> (r: Result<StatusMap, SlatusError>)
    ensures
        match r {
            Ok(m) => m.wf() && loaded(contents) == Some(m@),
            Err(e) => e == SlatusError::CorruptStore && loaded(contents) is None,
        },
{
    match contents {
        None => Ok(StatusMap::new()),
        Some(text) => match parse_document(text) {
            None => Err(SlatusError::CorruptStore),
            Some(doc) => match StatusMap::from_document(&doc) {
                None => Err(SlatusError::CorruptStore),
                Some(m) => Ok(m),
            },
        },
    }
}

/// The text of the preset file that stores these presets.
pub fn save_statuses(statuses: &StatusMap) -> (r: String)
    requires
        statuses.wf(),
    ensures
        r@ == pretty_json(document_of(statuses.entries_view())),
{
    let doc = statuses.to_document();
    render_document(&doc)
}

/// Loads the presets and stores `text` and `emoji` under `name`, replacing any
/// preset of that name. The caller writes the result back.
pub fn upsert_status(contents: Option<&str>, name: String, text: String, emoji: String) -> (r:
    Result<StatusMap, SlatusError>)
    ensures
        match r {
            Ok(m) => m.wf() && loaded(contents) is Some && m@ == loaded(contents)->0.insert(
                name@,
                (text@, emoji@),
            ),
            Err(e) => e == SlatusError::CorruptStore && loaded(contents) is None,
        },
{
    let mut m = load_statuses(contents)?;
    m.insert(name, SavedStatus { text, emoji });
    Ok(m)
}

/// Loads the presets and deletes the one named `name`. Gives the presets to
/// write back when one was deleted, and `None` when there was none, in which
/// case nothing is to be written.
pub fn remove_status(contents: Option<&str>, name: &String) -> (r: Result<
    Option<StatusMap>,
    SlatusError,
>)
    ensures
        match r {
            Ok(Some(m)) => m.wf() && loaded(contents) is Some && loaded(contents)->0.contains_key(
                name@,
            ) && m@ == loaded(contents)->0.remove(name@),
            Ok(None) => loaded(contents) is Some && !loaded(contents)->0.contains_key(name@),
            Err(e) => e == SlatusError::CorruptStore && loaded(contents) is None,
        },
{
    let mut m = load_statuses(contents)?;
    if m.remove(name) {
        Ok(Some(m))
    } else {
        Ok(None)
    }
}

/// Removing a name twice: the second removal finds nothing and leaves the
/// presets as the first left them.
pub proof fn lemma_remove_twice(presets: Map<Seq<char>, (Seq<char>, Seq<char>)>, name: Seq<char>)
    ensures
        !presets.remove(name).contains_key(name),
        presets.remove(name).remove(name) == presets.remove(name),
{
    assert(presets.remove(name).remove(name) =~= presets.remove(name));
}

/// Storing under a name twice keeps one preset of that name, the second one.
pub proof fn lemma_upsert_overwrite(
    presets: Map<Seq<char>, (Seq<char>, Seq<char>)>,
    name: Seq<char>,
    first: (Seq<char>, Seq<char>),
    second: (Seq<char>, Seq<char>),
)
    ensures
        presets.insert(name, first).insert(name, second) == presets.insert(name, second),
        presets.insert(name, first).insert(name, second)[name] == second,
{
    assert(presets.insert(name, first).insert(name, second) =~= presets.insert(name, second));
}

/// The document that stores a mapping reads back as that same mapping.
pub proof fn lemma_document_round_trip(m: &StatusMap)
    requires
        m.wf(),
    ensures
        statuses_of(document_of(m.entries_view())) == Some(m@),
{
    let s = m.entries_view();
    let d = document_of(s);
    lemma_field_names_differ();
    assert forall|i: int| 0 <= i < d.len() implies describes_preset(#[trigger] d[i].1) by {
        lemma_fields_of_entry(s[i].1.0, s[i].1.1);
    }
    assert forall|i: int| 0 <= i < s.len() implies entries_of(d)[i] == s[i] by {
        lemma_fields_of_entry(s[i].1.0, s[i].1.1);
    }
    assert(entries_of(d) =~= s);
}

proof fn lemma_field_names_differ()
    ensures
        "text"@ != "emoji"@,
{
    reveal_strlit("text");
    reveal_strlit("emoji");
    assert("text"@.len() != "emoji"@.len());
}

proof fn lemma_fields_of_entry(t: Seq<char>, e: Seq<char>)
    ensures
        field_of(seq![("text"@, t), ("emoji"@, e)], "text"@) == Some(t),
        field_of(seq![("text"@, t), ("emoji"@, e)], "emoji"@) == Some(e),
{
    lemma_field_names_differ();
    let f = seq![("text"@, t), ("emoji"@, e)];
    assert(f.skip(1) =~= seq![("emoji"@, e)]);
    assert(f.skip(1).skip(1).len() == 0);
    reveal_with_fuel(field_of, 3);
}

} // verus!
