use vstd::prelude::*;
use vstd::string::StrSliceExecFns;
use vstd::string::StringExecFns;
use crate::ids;
use crate::last_four_chars;

verus! {

/// A single timestamped note attached to an Event. Immutable once created,
/// owned by its parent Event.
pub struct Occurance {
    pub title: String,
    pub description: String,
    /// Wall-clock creation time as Unix milliseconds, captured at
    /// construction.
    pub created_at_millis: i64,
    /// String metadata keys mapped to string values, in insertion order.
    /// As a mapping its invariant is `spec_metadata_keys_unique`; the
    /// constructor leaves it empty and nothing in the command protocol
    /// fills it.
    pub metadata: Vec<(String, String)>,
}

/// The ordered metadata is a mapping: no key occurs twice.
pub open spec fn spec_metadata_keys_unique(m: Seq<(String, String)>) -> bool {
    forall|i: int, j: int| 0 <= i < j < m.len() ==> m[i].0@ != m[j].0@
}

/// A metadata key may not contain a newline or a colon (both reserved for
/// serialization).
pub open spec fn spec_valid_metadata_key(k: Seq<char>) -> bool {
    !k.contains('\n') && !k.contains(':')
}

/// Every metadata key is free of the reserved characters.
pub open spec fn spec_valid_metadata(m: Seq<(String, String)>) -> bool {
    forall|i: int| 0 <= i < m.len() ==> spec_valid_metadata_key(#[trigger] m[i].0@)
}

/// Relies on `chrono::Local::now` for the wall-clock creation time, read as
/// Unix milliseconds; nothing is promised of a clock reading.
#[verifier::external_body]
fn now_unix_millis() -> i64 {
    chrono::Local::now().timestamp_millis()
}

fn str_contains_char(s: &str, c: char) -> (r: bool)
    ensures
        r == s@.contains(c),
{
    let n = s.unicode_len();
    let mut i: usize = 0;
    while i < n
        invariant
            n == s@.len(),
            i <= n,
            forall|j: int| 0 <= j < i ==> s@[j] != c,
        decreases n - i,
    {
        if s.get_char(i) == c {
            return true;
        }
        i = i + 1;
    }
    false
}

impl Occurance {
    fn new(title: String, description: String) -> (r: Occurance)
        ensures
            r.title == title,
            r.description == description,
            r.metadata@.len() == 0,
            spec_metadata_keys_unique(r.metadata@),
    {
        Occurance {
            title,
            description,
            created_at_millis: now_unix_millis(),
            metadata: Vec::new(),
        }
    }

    /// Checks, on demand, that no metadata key holds a reserved character.
    /// Validity is not enforced at insertion; callers invoke this before
    /// relying on it.
    pub fn is_valid_metadata(&self) -> (r: bool)
        ensures
            r == spec_valid_metadata(self.metadata@),
    {
        let n = self.metadata.len();
        let mut i: usize = 0;
        while i < n
            invariant
                n == self.metadata@.len(),
                i <= n,
                forall|j: int| 0 <= j < i ==> spec_valid_metadata_key(#[trigger] self.metadata@[j].0@),
            decreases n - i,
        {
            let key = &self.metadata[i].0;
            if str_contains_char(key.as_str(), '\n') || str_contains_char(key.as_str(), ':') {
                return false;
            }
            i = i + 1;
        }
        true
    }
}

/// The rendered form of one Occurance.
pub open spec fn spec_render_occurance(o: Occurance) -> Seq<char> {
    "Occurance [ "@ + o.title@ + ": '"@ + o.description@ + "' ]"@
}

/// Renders one Occurance.
pub fn render_occurance(o: &Occurance) -> (r: String)
    ensures
        r@ == spec_render_occurance(*o),
{
    let mut r = String::from_str("Occurance [ ");
    r.append(o.title.as_str());
    r.append(": '");
    r.append(o.description.as_str());
    r.append("' ]");
    r
}

/// A named, identified log: a chronological list of Occurances under a
/// unique time-ordered identifier assigned once at creation.
pub struct Event {
    /// The time-ordered identifier, assigned at creation and never changed.
    pub id: u128,
    pub title: String,
    pub description: String,
    /// Oldest first; appended only, never reordered or removed one by one.
    pub occurances: Vec<Occurance>,
}

impl Event {
    /// Creates an Event with a freshly generated identifier, the given
    /// naming fields and no Occurances yet.
    pub fn new(title: String, description: String) -> (r: Event)
        ensures
            ids::id_is_timestamped(r.id),
            r.title == title,
            r.description == description,
            r.occurances@.len() == 0,
    {
        Event { id: ids::fresh_event_id(), title, description, occurances: Vec::new() }
    }

    /// Creates an Event and yields its identifier beside it, ready for map
    /// insertion.
    pub fn new_for_map(title: String, description: String) -> (r: (u128, Event))
        ensures
            r.0 == r.1.id,
            ids::id_is_timestamped(r.1.id),
            r.1.title == title,
            r.1.description == description,
            r.1.occurances@.len() == 0,
    {
        let new_event = Self::new(title, description);
        (new_event.id, new_event)
    }

    /// Appends one new Occurance with the given naming fields; everything
    /// already logged stays as it was.
    pub fn occur(&mut self, title: String, description: String)
        ensures
            final(self).id == old(self).id,
            final(self).title == old(self).title,
            final(self).description == old(self).description,
            final(self).occurances@.len() == old(self).occurances@.len() + 1,
            forall|i: int|
                0 <= i < old(self).occurances@.len() ==> final(self).occurances@[i] == old(
                    self,
                ).occurances@[i],
            final(self).occurances@.last().title == title,
            final(self).occurances@.last().description == description,
            final(self).occurances@.last().metadata@.len() == 0,
            spec_metadata_keys_unique(final(self).occurances@.last().metadata@),
    {
        let new_occu = Occurance::new(title, description);
        self.occurances.push(new_occu);
    }

    pub fn title(&self) -> (r: &String)
        ensures
            r@ == self.title@,
    {
        &self.title
    }
}

/// The rendered forms of the first `upto` Occurances, each on a line of its
/// own.
pub open spec fn spec_render_occurances(os: Seq<Occurance>, upto: int) -> Seq<char>
    decreases upto,
{
    if upto <= 0 {
        Seq::empty()
    } else {
        spec_render_occurances(os, upto - 1) + spec_render_occurance(os[upto - 1]) + "\n"@
    }
}

/// The head line of an Event's rendered form: the last four characters of
/// its hyphenated identifier and its title.
pub open spec fn spec_render_event_head(e: Event) -> Seq<char> {
    "Event ( uuid: "@ + spec_last_four(ids::spec_id_hyphenated(e.id)) + ", title: "@ + e.title@
        + " )"@
}

/// The whole string has at most four characters, or its last four.
pub open spec fn spec_last_four(s: Seq<char>) -> Seq<char> {
    if s.len() <= 4 {
        s
    } else {
        s.subrange(s.len() - 4, s.len() as int)
    }
}

/// The rendered form of an Event: its head line and, when any Occurance was
/// logged, one line per Occurance in chronological order.
pub open spec fn spec_render_event(e: Event) -> Seq<char> {
    if e.occurances@.len() == 0 {
        spec_render_event_head(e)
    } else {
        spec_render_event_head(e) + "\n"@ + spec_render_occurances(
            e.occurances@,
            e.occurances@.len() as int,
        )
    }
}

/// Renders an Event.
pub fn render_event(e: &Event) -> (r: String)
    ensures
        r@ == spec_render_event(*e),
{
    let mut r = String::from_str("Event ( uuid: ");
    let hyphenated = ids::render_id_hyphenated(e.id);
    let tail = last_four_chars(hyphenated);
    r.append(tail.as_str());
    r.append(", title: ");
    r.append(e.title.as_str());
    r.append(" )");
    let n = e.occurances.len();
    if n > 0 {
        r.append("\n");
        let mut i: usize = 0;
        while i < n
            invariant
                n == e.occurances@.len(),
                i <= n,
                r@ == spec_render_event_head(*e) + "\n"@ + spec_render_occurances(
                    e.occurances@,
                    i as int,
                ),
            decreases n - i,
        {
            let line = render_occurance(&e.occurances[i]);
            r.append(line.as_str());
            r.append("\n");
            i = i + 1;
        }
    }
    r
}

} // verus!
