use vstd::prelude::*;
use vstd::string::StrSliceExecFns;
use vstd::string::StringExecFns;
use crate::errors::OccuError;
use crate::events::Event;
use crate::events::render_event;
use crate::events::spec_render_event;
use crate::ids;
use crate::store::EventStore;
use crate::store::entries_have_key;
use crate::text::render_u64;
use crate::text::spec_dec;
use crate::text::str_eq;

verus! {

/// A whitespace character, for splitting a command line into fields: the
/// characters with the Unicode `White_Space` property.
pub open spec fn is_space_char(c: char) -> bool {
    c == ' ' || c == '\t' || c == '\n' || c == '\r' || c == '\u{b}' || c == '\u{c}' || c
        == '\u{85}' || c == '\u{a0}' || c == '\u{1680}' || ('\u{2000}' <= c && c <= '\u{200a}')
        || c == '\u{2028}' || c == '\u{2029}' || c == '\u{202f}' || c == '\u{205f}' || c
        == '\u{3000}'
}

/// The length of the run of non-whitespace characters at the front.
pub open spec fn spec_token_len(s: Seq<char>) -> nat
    decreases s.len(),
{
    if s.len() == 0 || is_space_char(s[0]) {
        0
    } else {
        1 + spec_token_len(s.drop_first())
    }
}

/// The leading token never reaches past the end of the line.
pub proof fn lemma_token_len_bounds(s: Seq<char>)
    ensures
        spec_token_len(s) <= s.len(),
        s.len() > 0 && !is_space_char(s[0]) ==> spec_token_len(s) >= 1,
    decreases s.len(),
{
    if s.len() > 0 && !is_space_char(s[0]) {
        lemma_token_len_bounds(s.drop_first());
    }
}

/// The fields of a line: the maximal runs of non-whitespace characters, in
/// order. A line of nothing but whitespace has no fields.
pub open spec fn spec_tokens(s: Seq<char>) -> Seq<Seq<char>>
    decreases s.len(),
    via spec_tokens_decreases
{
    if s.len() == 0 {
        Seq::empty()
    } else if is_space_char(s[0]) {
        spec_tokens(s.drop_first())
    } else {
        seq![s.take(spec_token_len(s) as int)] + spec_tokens(s.skip(spec_token_len(s) as int))
    }
}

#[via_fn]
proof fn spec_tokens_decreases(s: Seq<char>) {
    lemma_token_len_bounds(s);
}

/// The views of a sequence of strings.
pub open spec fn views_of(ts: Seq<String>) -> Seq<Seq<char>> {
    ts.map_values(|t: String| t@)
}

fn is_space(c: char) -> (r: bool)
    ensures
        r == is_space_char(c),
{
    c == ' ' || c == '\t' || c == '\n' || c == '\r' || c == '\u{b}' || c == '\u{c}' || c
        == '\u{85}' || c == '\u{a0}' || c == '\u{1680}' || ('\u{2000}' <= c && c <= '\u{200a}')
        || c == '\u{2028}' || c == '\u{2029}' || c == '\u{202f}' || c == '\u{205f}' || c
        == '\u{3000}'
}

proof fn lemma_token_len_at(s: Seq<char>, start: int, end: int)
    requires
        0 <= start <= end <= s.len(),
        forall|k: int| start <= k < end ==> !is_space_char(s[k]),
        end == s.len() || is_space_char(s[end]),
    ensures
        spec_token_len(s.skip(start)) == end - start,
    decreases end - start,
{
    if start < end {
        assert(s.skip(start)[0] == s[start]);
        assert(s.skip(start).drop_first() =~= s.skip(start + 1));
        lemma_token_len_at(s, start + 1, end);
    } else {
        if start < s.len() {
            assert(s.skip(start)[0] == s[start]);
        }
    }
}

/// Splits a line on runs of whitespace into its fields.
pub fn tokenize(line: &str) -> (r: Vec<String>)
    ensures
        views_of(r@) == spec_tokens(line@),
{
    let n = line.unicode_len();
    let mut r: Vec<String> = Vec::new();
    let mut i: usize = 0;
    proof {
        assert(line@.skip(0) =~= line@);
    }
    while i < n
        invariant
            n == line@.len(),
            i <= n,
            spec_tokens(line@) == views_of(r@) + spec_tokens(line@.skip(i as int)),
        decreases n - i,
    {
        let c = line.get_char(i);
        if is_space(c) {
            proof {
                assert(line@.skip(i as int)[0] == line@[i as int]);
                assert(line@.skip(i as int).drop_first() =~= line@.skip(i + 1));
            }
            i = i + 1;
        } else {
            let start = i;
            let mut j = i + 1;
            while j < n && !is_space(line.get_char(j))
                invariant
                    n == line@.len(),
                    start < j <= n,
                    forall|k: int| start <= k < j ==> !is_space_char(line@[k]),
                decreases n - j,
            {
                j = j + 1;
            }
            let tok = String::from_str(line.substring_char(start, j));
            proof {
                let s = line@;
                lemma_token_len_at(s, start as int, j as int);
                assert(s.skip(start as int)[0] == s[start as int]);
                assert(s.skip(start as int).take(j - start) =~= s.subrange(start as int, j as int));
                assert(s.skip(start as int).skip(j - start) =~= s.skip(j as int));
                assert(spec_tokens(s.skip(start as int)) == seq![s.subrange(start as int, j as int)]
                    + spec_tokens(s.skip(j as int)));
                assert(views_of(r@.push(tok)) =~= views_of(r@).push(tok@));
                assert(views_of(r@).push(tok@) + spec_tokens(s.skip(j as int)) =~= views_of(r@) + (
                seq![tok@] + spec_tokens(s.skip(j as int))));
            }
            r.push(tok);
            i = j;
        }
    }
    proof {
        assert(line@.skip(n as int) =~= Seq::<char>::empty());
        assert(views_of(r@) + spec_tokens(Seq::<char>::empty()) =~= views_of(r@));
    }
    r
}

/// A decimal digit.
pub open spec fn is_digit_char(c: char) -> bool {
    '0' <= c && c <= '9'
}

/// The value of one decimal digit character.
pub open spec fn digit_val(c: char) -> nat {
    ((c as nat) - ('0' as nat)) as nat
}

/// Every character is a decimal digit.
pub open spec fn all_digits(s: Seq<char>) -> bool {
    forall|i: int| 0 <= i < s.len() ==> is_digit_char(#[trigger] s[i])
}

/// The numeric value of a run of decimal digits, most significant first.
pub open spec fn spec_dec_value(s: Seq<char>) -> nat
    decreases s.len(),
{
    if s.len() == 0 {
        0
    } else {
        spec_dec_value(s.drop_last()) * 10 + digit_val(s.last())
    }
}

proof fn lemma_dec_value_prefix_le(s: Seq<char>, i: int, j: int)
    requires
        0 <= i <= j <= s.len(),
    ensures
        spec_dec_value(s.take(i)) <= spec_dec_value(s.take(j)),
    decreases j - i,
{
    if i < j {
        lemma_dec_value_prefix_le(s, i, j - 1);
        assert(s.take(j).drop_last() =~= s.take(j - 1));
        assert(spec_dec_value(s.take(j)) == spec_dec_value(s.take(j - 1)) * 10 + digit_val(
            s.take(j).last(),
        ));
        assert(spec_dec_value(s.take(j - 1)) * 10 >= spec_dec_value(s.take(j - 1))) by (nonlinear_arith);
    }
}

/// Parses a non-negative decimal integer: the parse succeeds exactly when
/// the text is non-empty, all digits, and its value fits the index type.
pub fn parse_usize(s: &str) -> (r: Option<usize>)
    ensures
        r is Some <==> (s@.len() > 0 && all_digits(s@) && spec_dec_value(s@) <= usize::MAX),
        r matches Some(v) ==> v == spec_dec_value(s@),
{
    let n = s.unicode_len();
    if n == 0 {
        return None;
    }
    let mut acc: usize = 0;
    let mut i: usize = 0;
    while i < n
        invariant
            n == s@.len(),
            i <= n,
            all_digits(s@.take(i as int)),
            acc == spec_dec_value(s@.take(i as int)),
        decreases n - i,
    {
        let c = s.get_char(i);
        if c < '0' || c > '9' {
            assert(!is_digit_char(s@[i as int]));
            return None;
        }
        let d = (c as u32 as usize) - 48;
        assert(d == digit_val(s@[i as int]) && d <= 9);
        if acc > (usize::MAX - d) / 10 {
            proof {
                let m = usize::MAX as nat;
                let q = (m - d) / 10;
                assert((m - d) == q * 10 + (m - d) % 10 && (m - d) % 10 < 10) by (nonlinear_arith)
                    requires q == (m - d) / 10 && d <= 9;
                assert(acc * 10 >= (q + 1) * 10) by (nonlinear_arith)
                    requires acc >= q + 1;
                assert(s@.take(i + 1).drop_last() =~= s@.take(i as int));
                assert(s@.take(i + 1).last() == s@[i as int]);
                assert(spec_dec_value(s@.take(i + 1)) > m);
                lemma_dec_value_prefix_le(s@, i + 1, n as int);
                assert(s@.take(n as int) =~= s@);
            }
            return None;
        }
        proof {
            let m = usize::MAX as nat;
            let q = (m - d) / 10;
            assert((m - d) >= q * 10 && acc * 10 <= q * 10) by (nonlinear_arith)
                requires q == (m - d) / 10, acc <= q;
            assert(s@.take(i + 1).drop_last() =~= s@.take(i as int));
            assert(s@.take(i + 1).last() == s@[i as int]);
        }
        acc = acc * 10 + d;
        i = i + 1;
    }
    proof {
        assert(s@.take(n as int) =~= s@);
    }
    Some(acc)
}

/// One typed operation against the store, parsed from a line of input.
/// An empty line and an unrecognized command name both parse to `Nothing`:
/// deliberate no-ops, not errors.
pub enum Command {
    New(String, String),
    List,
    Remove(usize),
    Exit,
    Nothing,
}

/// How a field sequence resolves against the fixed command table: which
/// command it names, with which arguments, or which error it earns.
pub open spec fn spec_parse_command(tokens: Seq<String>) -> Result<Command, OccuError> {
    if tokens.len() == 0 {
        Ok(Command::Nothing)
    } else if tokens[0]@ == "new"@ {
        if tokens.len() < 3 {
            Err(OccuError::RequiresArgs(2))
        } else {
            Ok(Command::New(tokens[1], tokens[2]))
        }
    } else if tokens[0]@ == "list"@ || tokens[0]@ == "ls"@ {
        Ok(Command::List)
    } else if tokens[0]@ == "remove"@ || tokens[0]@ == "rm"@ {
        if tokens.len() != 2 {
            Err(OccuError::RequiresArgs(1))
        } else if !(tokens[1]@.len() > 0 && all_digits(tokens[1]@) && spec_dec_value(tokens[1]@)
            <= usize::MAX) {
            Err(OccuError::InvalidIndex)
        } else {
            Ok(Command::Remove(spec_dec_value(tokens[1]@) as usize))
        }
    } else if tokens[0]@ == "exit"@ || tokens[0]@ == "quit"@ {
        Ok(Command::Exit)
    } else {
        Ok(Command::Nothing)
    }
}

/// Resolves the fields of a line against the command table, case
/// sensitively. The first field names the command; `new` takes its first
/// two arguments; `remove` takes exactly one, a non-negative index.
pub fn parse_command(tokens: &Vec<String>) -> (r: Result<Command, OccuError>)
    ensures
        r == spec_parse_command(tokens@),
{
    if tokens.len() == 0 {
        return Ok(Command::Nothing);
    }
    let head = tokens[0].as_str();
    if str_eq(head, "new") {
        if tokens.len() < 3 {
            Err(OccuError::RequiresArgs(2))
        } else {
            Ok(Command::New(tokens[1].clone(), tokens[2].clone()))
        }
    } else if str_eq(head, "list") || str_eq(head, "ls") {
        Ok(Command::List)
    } else if str_eq(head, "remove") || str_eq(head, "rm") {
        if tokens.len() != 2 {
            Err(OccuError::RequiresArgs(1))
        } else {
            match parse_usize(tokens[1].as_str()) {
                Some(idx) => Ok(Command::Remove(idx)),
                None => Err(OccuError::InvalidIndex),
            }
        }
    } else if str_eq(head, "exit") || str_eq(head, "quit") {
        Ok(Command::Exit)
    } else {
        Ok(Command::Nothing)
    }
}

/// One more entry stands at the end of the order, carrying a fresh
/// timestamped identifier and the given naming fields; everything that was
/// there before is untouched.
pub open spec fn spec_added_event(
    pre: Seq<(u128, Event)>,
    post: Seq<(u128, Event)>,
    title: Seq<char>,
    description: Seq<char>,
) -> bool {
    &&& post.len() == pre.len() + 1
    &&& (forall|i: int| 0 <= i < pre.len() ==> post[i] == pre[i])
    &&& post.last().0 == post.last().1.id
    &&& ids::id_is_timestamped(post.last().1.id)
    &&& post.last().1.title@ == title
    &&& post.last().1.description@ == description
    &&& post.last().1.occurances@.len() == 0
    &&& !entries_have_key(pre, post.last().0)
}

/// Some entry already carries an identifier of the timestamped version:
/// the only keys a freshly generated identifier could collide with.
pub open spec fn has_timestamped_key(s: Seq<(u128, Event)>) -> bool {
    exists|i: int| 0 <= i < s.len() && ids::id_is_timestamped(#[trigger] s[i].0)
}

/// Creates an Event from the given fields and inserts it at the end of the
/// store; an identifier collision is reported and leaves the store as it
/// was. A collision can only be with a timestamped identifier already in
/// the store, so on a store without one — the empty store in particular —
/// success is certain.
pub fn add_event(title: String, description: String, store: &mut EventStore) -> (r: Result<
    (),
    OccuError,
>)
    requires
        old(store).wf(),
    ensures
        final(store).wf(),
        r is Ok ==> spec_added_event(
            old(store).entries(),
            final(store).entries(),
            title@,
            description@,
        ),
        r is Err ==> r == Err::<(), OccuError>(OccuError::EventExists) && final(store).entries()
            == old(store).entries() && has_timestamped_key(old(store).entries()),
{
    let (id, new_event) = Event::new_for_map(title, description);
    let ghost pre = store.entries();
    let r = store.insert(id, new_event);
    proof {
        if r is Err {
            let i = choose|i: int| 0 <= i < pre.len() && pre[i].0 == id;
            assert(ids::id_is_timestamped(pre[i].0));
        }
    }
    r
}

/// A confirmation answer counts as affirmative exactly when its first
/// character, case-folded, is `y`; everything else, the empty answer
/// included, is negative.
pub open spec fn spec_affirmative(s: Seq<char>) -> bool {
    s.len() > 0 && (s[0] == 'y' || s[0] == 'Y')
}

/// Reads a confirmation answer: a strict allow-list, not a reject-list.
pub fn confirm_is_affirmative(answer: &str) -> (r: bool)
    ensures
        r == spec_affirmative(answer@),
{
    let n = answer.unicode_len();
    if n == 0 {
        false
    } else {
        let c = answer.get_char(0);
        c == 'y' || c == 'Y'
    }
}

/// The confirmation prompt shown before a removal, naming the target.
pub open spec fn spec_confirm_prompt(title: Seq<char>) -> Seq<char> {
    "Are you sure you want to delete event \""@ + title + "\"? y/N"@
}

/// Renders the confirmation prompt for a removal target.
pub fn confirm_prompt(title: &str) -> (r: String)
    ensures
        r@ == spec_confirm_prompt(title@),
{
    let mut s = String::from_str("Are you sure you want to delete event \"");
    s.append(title);
    s.append("\"? y/N");
    s
}

/// The title of the entry a removal would target, or nothing when the
/// position is out of bounds (in which case there is nothing to remove and
/// nothing to confirm).
pub fn remove_query(store: &EventStore, idx: usize) -> (r: Option<String>)
    ensures
        idx < store.entries().len() ==> (r matches Some(t) && t@ == store.entries()[
            idx as int
        ].1.title@),
        idx >= store.entries().len() ==> r is None,
{
    match store.get_by_index(idx) {
        Some((_, event)) => Some(event.title().clone()),
        None => None,
    }
}

/// Applies a confirmed removal: the entry leaves the store only on an
/// affirmative answer and an in-range position; any other answer leaves the
/// store unchanged, the target entry still in place.
pub fn apply_remove(store: &mut EventStore, idx: usize, answer: &str)
    requires
        old(store).wf(),
    ensures
        final(store).wf(),
        spec_affirmative(answer@) && idx < old(store).entries().len() ==> final(store).entries()
            == old(store).entries().remove(idx as int),
        !(spec_affirmative(answer@) && idx < old(store).entries().len()) ==> final(store).entries()
            == old(store).entries(),
{
    if confirm_is_affirmative(answer) {
        store.remove_by_index(idx);
    }
}

/// Every entry's identifier embeds a recoverable creation time.
pub open spec fn all_timestamped(s: Seq<(u128, Event)>) -> bool {
    forall|i: int| 0 <= i < s.len() ==> ids::id_is_timestamped(#[trigger] s[i].0)
}

/// One listed entry: its position, its formatted creation timestamp, and
/// the Event's rendered form on the next line.
pub open spec fn spec_entry_line(i: int, ts: Seq<char>, e: Event) -> Seq<char> {
    spec_dec(i as nat) + ". "@ + ts + "\n "@ + spec_render_event(e) + "\n"@
}

/// The line lists the given Event at the given position, under some
/// formatted timestamp (whose text depends on the machine's time zone).
pub open spec fn is_entry_line(l: Seq<char>, i: int, e: Event) -> bool {
    exists|ts: Seq<char>| l == #[trigger] spec_entry_line(i, ts, e)
}

/// What a listing shows for the given entries: the header, then either an
/// explicit notice for an empty store or one line per entry in insertion
/// order. When some identifier embeds no recoverable time, the listing
/// stops right there: the entries before it stay listed, the rest never
/// appear, and the error is reported.
pub open spec fn spec_listing(
    entries: Seq<(u128, Event)>,
    lines: Seq<String>,
    err: Option<OccuError>,
) -> bool {
    &&& lines.len() >= 1
    &&& lines[0]@ == "====== Events ======"@
    &&& (entries.len() == 0 ==> err is None && lines.len() == 2 && lines[1]@ == "    No events."@)
    &&& (entries.len() > 0 ==> lines.len() <= 1 + entries.len() && (forall|j: int|
        1 <= j < lines.len() ==> is_entry_line(#[trigger] lines[j]@, j - 1, entries[j - 1].1)))
    &&& (entries.len() > 0 && err is None ==> lines.len() == 1 + entries.len())
    &&& (entries.len() > 0 && all_timestamped(entries) ==> err is None)
    &&& (entries.len() > 0 && !all_timestamped(entries) ==> err == Some(
        OccuError::InvalidUuidTimestamp,
    ))
    &&& (err is Some ==> err == Some(OccuError::InvalidUuidTimestamp) && entries.len() > 0
        && lines.len() <= entries.len() && !ids::id_is_timestamped(
        entries[lines.len() - 1].0,
    ) && (forall|j: int| 0 <= j < lines.len() - 1 ==> ids::id_is_timestamped(
        #[trigger] entries[j].0,
    )))
}

/// Relies on chrono: `DateTime::from_timestamp` yields a date-time for any
/// whole seconds a 48-bit millisecond count can reach with a sub-second
/// nanosecond part, and rendering it in the local time zone as
/// `%Y-%m-%d %I:%M %p` yields a string. What the string holds depends on
/// the machine's time zone, so nothing more is promised of it.
#[verifier::external_body]
fn format_local_timestamp(secs: i64, nsecs: u32) -> (r: Option<String>)
    ensures
        0 <= secs <= 281_474_976_710 && nsecs < 1_000_000_000 ==> r is Some,
{
    let utc = chrono::DateTime::from_timestamp(secs, nsecs)?;
    let local = utc.with_timezone(&chrono::Local);
    Some(local.format("%Y-%m-%d %I:%M %p").to_string())
}

/// Lists the store: the lines to print, and the error that aborted the
/// listing partway, if one did.
pub fn list_events(store: &EventStore) -> (r: (Vec<String>, Option<OccuError>))
    ensures
        spec_listing(store.entries(), r.0@, r.1),
{
    let mut lines: Vec<String> = Vec::new();
    lines.push(String::from_str("====== Events ======"));
    if store.is_empty() {
        lines.push(String::from_str("    No events."));
        return (lines, None);
    }
    let n = store.len();
    let mut i: usize = 0;
    while i < n
        invariant
            n == store.entries().len(),
            0 < n,
            i <= n,
            lines@.len() == 1 + i,
            lines@[0]@ == "====== Events ======"@,
            forall|j: int|
                1 <= j < lines@.len() ==> is_entry_line(
                    #[trigger] lines@[j]@,
                    j - 1,
                    store.entries()[j - 1].1,
                ),
            forall|j: int| 0 <= j < i ==> ids::id_is_timestamped(#[trigger] store.entries()[j].0),
        decreases n - i,
    {
        let entry = store.get_by_index(i);
        let (id, event) = match entry {
            Some(p) => p,
            None => {
                return (lines, Some(OccuError::InvalidUuidTimestamp));
            },
        };
        let (secs, nanos) = match ids::extract_timestamp(id) {
            Some(t) => t,
            None => {
                return (lines, Some(OccuError::InvalidUuidTimestamp));
            },
        };
        proof {
            assert(id >> 80 < 0x1_0000_0000_0000) by (bit_vector);
        }
        let ts = match format_local_timestamp(secs as i64, nanos) {
            Some(t) => t,
            None => {
                return (lines, Some(OccuError::InvalidUuidTimestamp));
            },
        };
        let mut line = render_u64(i as u64);
        line.append(". ");
        line.append(ts.as_str());
        line.append("\n ");
        let rendered = render_event(event);
        line.append(rendered.as_str());
        line.append("\n");
        proof {
            assert(*event == store.entries()[i as int].1);
            assert(is_entry_line(line@, i as int, store.entries()[i as int].1)) by {
                assert(line@ == spec_entry_line(i as int, ts@, store.entries()[i as int].1));
            }
        }
        lines.push(line);
        i = i + 1;
    }
    (lines, None)
}

/// What the interactive loop must do after one line was dispatched. The
/// loop performs the printing, the prompt and the exit; the decisions are
/// all made here.
pub enum Action {
    /// Nothing to print and nothing to report: an empty line, an
    /// unrecognized command, a successful `new`, or a removal of a
    /// position that holds nothing.
    Silent,
    /// Print the lines; when an error follows them, report it afterwards
    /// (the listing aborted partway).
    Output(Vec<String>, Option<OccuError>),
    /// Report the error and continue.
    Report(OccuError),
    /// Ask for confirmation before removing the entry at the position with
    /// the given title, then apply the answer.
    Confirm(usize, String),
    /// A recognized exit command: terminate with success.
    Exit,
}

/// Dispatches one line of input against the store: tokenizes it, resolves
/// the command, executes everything that needs no further input, and hands
/// the rest back as the Action to perform.
pub fn handle_line(store: &mut EventStore, line: &str) -> (r: Action)
    requires
        old(store).wf(),
    ensures
        final(store).wf(),
        ({
            let toks = spec_tokens(line@);
            let unchanged = final(store).entries() == old(store).entries();
            &&& (toks.len() == 0 ==> r is Silent && unchanged)
            &&& (toks.len() > 0 && toks[0] == "new"@ && toks.len() < 3 ==> r == Action::Report(
                OccuError::RequiresArgs(2),
            ) && unchanged)
            &&& (toks.len() >= 3 && toks[0] == "new"@ ==> (r is Silent && spec_added_event(
                old(store).entries(),
                final(store).entries(),
                toks[1],
                toks[2],
            )) || (r == Action::Report(OccuError::EventExists) && unchanged && has_timestamped_key(
                old(store).entries(),
            )))
            &&& (toks.len() > 0 && (toks[0] == "list"@ || toks[0] == "ls"@) ==> unchanged && (
            r matches Action::Output(lines, err) && spec_listing(
                old(store).entries(),
                lines@,
                err,
            )))
            &&& (toks.len() > 0 && (toks[0] == "remove"@ || toks[0] == "rm"@) ==> unchanged && {
                if toks.len() != 2 {
                    r == Action::Report(OccuError::RequiresArgs(1))
                } else if !(toks[1].len() > 0 && all_digits(toks[1]) && spec_dec_value(toks[1])
                    <= usize::MAX) {
                    r == Action::Report(OccuError::InvalidIndex)
                } else if spec_dec_value(toks[1]) < old(store).entries().len() {
                    r matches Action::Confirm(idx, title) && idx == spec_dec_value(toks[1])
                        && title@ == old(store).entries()[spec_dec_value(toks[1]) as int].1.title@
                } else {
                    r is Silent
                }
            })
            &&& (toks.len() > 0 && (toks[0] == "exit"@ || toks[0] == "quit"@) ==> r is Exit
                && unchanged)
            &&& (toks.len() > 0 && !(toks[0] == "new"@ || toks[0] == "list"@ || toks[0] == "ls"@
                || toks[0] == "remove"@ || toks[0] == "rm"@ || toks[0] == "exit"@ || toks[0]
                == "quit"@) ==> r is Silent && unchanged)
        }),
{
    let tokens = tokenize(line);
    proof {
        broadcast use vstd::string::group_string_axioms;

        reveal_strlit("new");
        reveal_strlit("list");
        reveal_strlit("ls");
        reveal_strlit("remove");
        reveal_strlit("rm");
        reveal_strlit("exit");
        reveal_strlit("quit");
        assert("new"@.len() == 3 && "list"@.len() == 4 && "ls"@.len() == 2 && "remove"@.len() == 6
            && "rm"@.len() == 2 && "exit"@.len() == 4 && "quit"@.len() == 4);
        assert("list"@[0] == 'l' && "exit"@[0] == 'e' && "quit"@[0] == 'q' && "ls"@[0] == 'l'
            && "rm"@[0] == 'r');
        assert forall|k: int| 0 <= k < tokens@.len() implies #[trigger] tokens@[k]@ == spec_tokens(
            line@,
        )[k] by {
            assert(views_of(tokens@)[k] == tokens@[k]@);
        }
        assert(tokens@.len() == spec_tokens(line@).len());
    }
    match parse_command(&tokens) {
        Err(e) => Action::Report(e),
        Ok(Command::Nothing) => Action::Silent,
        Ok(Command::Exit) => Action::Exit,
        Ok(Command::New(title, description)) => match add_event(title, description, store) {
            Ok(()) => Action::Silent,
            Err(e) => Action::Report(e),
        },
        Ok(Command::List) => {
            let (lines, err) = list_events(store);
            Action::Output(lines, err)
        },
        Ok(Command::Remove(idx)) => match remove_query(store, idx) {
            Some(title) => Action::Confirm(idx, title),
            None => Action::Silent,
        },
    }
}

/// Removing position `i` and then listing shows the original sequence with
/// that one entry deleted: the entries before it keep their positions, and
/// every entry after it is listed exactly one position lower.
pub proof fn lemma_remove_then_list_shifts_down(
    pre: Seq<(u128, Event)>,
    i: int,
    lines: Seq<String>,
    err: Option<OccuError>,
)
    requires
        all_timestamped(pre),
        0 <= i < pre.len(),
        spec_listing(pre.remove(i), lines, err),
    ensures
        err is None,
        pre.len() > 1 ==> lines.len() == pre.len(),
        pre.len() == 1 ==> lines.len() == 2 && lines[1]@ == "    No events."@,
        forall|j: int| 1 <= j < 1 + i ==> is_entry_line(#[trigger] lines[j]@, j - 1, pre[j - 1].1),
        forall|j: int| 1 + i <= j < pre.len() ==> is_entry_line(#[trigger] lines[j]@, j - 1, pre[j].1),
{
    let post = pre.remove(i);
    crate::store::lemma_remove_shifts(pre, i);
    assert(all_timestamped(post)) by {
        assert forall|k: int| 0 <= k < post.len() implies ids::id_is_timestamped(
            #[trigger] post[k].0,
        ) by {
            if k < i {
                assert(post[k] == pre[k]);
            } else {
                assert(post[k] == pre[k + 1]);
            }
        }
    }
    assert forall|j: int| 1 <= j < 1 + i implies is_entry_line(
        #[trigger] lines[j]@,
        j - 1,
        pre[j - 1].1,
    ) by {
        assert(post[j - 1] == pre[j - 1]);
    }
    assert forall|j: int| 1 + i <= j < pre.len() implies is_entry_line(
        #[trigger] lines[j]@,
        j - 1,
        pre[j].1,
    ) by {
        assert(post[j - 1] == pre[j]);
    }
}

/// Creating an Event and then listing shows exactly one more entry than
/// before, at the last position in insertion order, rendering the new
/// Event.
pub proof fn lemma_new_then_list_shows_one_more(
    pre: Seq<(u128, Event)>,
    post: Seq<(u128, Event)>,
    title: Seq<char>,
    description: Seq<char>,
    lines: Seq<String>,
    err: Option<OccuError>,
)
    requires
        all_timestamped(pre),
        spec_added_event(pre, post, title, description),
        spec_listing(post, lines, err),
    ensures
        err is None,
        lines.len() == 2 + pre.len(),
        is_entry_line(lines[lines.len() - 1]@, pre.len() as int, post.last().1),
        post.last().1.title@ == title,
{
    assert(all_timestamped(post)) by {
        assert forall|i: int| 0 <= i < post.len() implies ids::id_is_timestamped(
            #[trigger] post[i].0,
        ) by {
            if i < pre.len() {
                assert(post[i] == pre[i]);
            } else {
                assert(post[i] == post.last());
            }
        }
    }
}

} // verus!

