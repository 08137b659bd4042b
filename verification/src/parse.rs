//! Parsing of shortcut specifications.
//!
//! A specification text is a comma-separated list of entries; each entry
//! is split on `:` into two or three fields: an identifier, a
//! description, and an optional preferred trigger (the trigger field is
//! the whole remainder, so it may itself contain `:`). An entry with
//! fewer than two fields makes the whole batch invalid: parsing is
//! all-or-nothing, never partial.

use vstd::prelude::*;

verus! {

/// A shortcut the caller asks the portal backend to bind.
pub struct ShortcutRequest {
    /// Identifier of the shortcut, chosen by the caller.
    pub id: String,
    /// Human-readable description of the shortcut.
    pub description: String,
    /// Preferred trigger, if the entry had a third field; the backend
    /// treats `None` as "no preference".
    pub preferred_trigger: Option<String>,
}

/// Mathematical image of a [`ShortcutRequest`].
#[verifier::ext_equal]
pub struct ShortcutRequestView {
    pub id: Seq<char>,
    pub description: Seq<char>,
    pub preferred_trigger: Option<Seq<char>>,
}

impl View for ShortcutRequest {
    type V = ShortcutRequestView;

    open spec fn view(&self) -> ShortcutRequestView {
        ShortcutRequestView {
            id: self.id@,
            description: self.description@,
            preferred_trigger: match self.preferred_trigger {
                Option::Some(t) => Option::Some(t@),
                Option::None => Option::None,
            },
        }
    }
}

/// Index of the first occurrence of `c` in `s`, or `s.len()` if `c`
/// does not occur.
pub open spec fn first_at(s: Seq<char>, c: char) -> nat
    decreases s.len(),
{
    if s.len() == 0 {
        0
    } else if s[0] == c {
        0
    } else {
        1 + first_at(s.skip(1), c)
    }
}

/// `first_at` finds an occurrence of `c` and nothing before it.
pub proof fn lemma_first_at(s: Seq<char>, c: char)
    ensures
        first_at(s, c) <= s.len(),
        forall|j: int| 0 <= j < first_at(s, c) ==> s[j] != c,
        first_at(s, c) < s.len() ==> s[first_at(s, c) as int] == c,
    decreases s.len(),
{
    if s.len() == 0 {
    } else if s[0] == c {
    } else {
        lemma_first_at(s.skip(1), c);
        assert forall|j: int| 0 <= j < first_at(s, c) implies s[j] != c by {
            if j > 0 {
                assert(s.skip(1)[j - 1] == s[j]);
            }
        }
        if first_at(s, c) < s.len() {
            assert(s.skip(1)[first_at(s, c) - 1] == s[first_at(s, c) as int]);
        }
    }
}

/// A position with `c` at it and no `c` before it is `first_at`.
pub proof fn lemma_first_at_is(s: Seq<char>, c: char, k: int)
    requires
        0 <= k <= s.len(),
        forall|j: int| 0 <= j < k ==> s[j] != c,
        k < s.len() ==> s[k] == c,
    ensures
        first_at(s, c) == k,
    decreases s.len(),
{
    if s.len() == 0 {
    } else if s[0] == c {
        assert(k == 0);
    } else {
        assert(k > 0) by {
            assert(0 < s.len());
        }
        assert forall|j: int| 0 <= j < k - 1 implies s.skip(1)[j] != c by {
            assert(s.skip(1)[j] == s[j + 1]);
        }
        if k - 1 < s.skip(1).len() {
            assert(s.skip(1)[k - 1] == s[k]);
        }
        lemma_first_at_is(s.skip(1), c, k - 1);
    }
}

/// Split `s` at every occurrence of `c`; the separators themselves are
/// not part of any piece, and `n` separators yield `n + 1` pieces.
pub open spec fn split_on(s: Seq<char>, c: char) -> Seq<Seq<char>>
    decreases s.len(),
{
    let k = first_at(s, c);
    if k < s.len() {
        seq![s.take(k as int)] + split_on(s.skip(k as int + 1), c)
    } else {
        seq![s]
    }
}

/// The entries of a specification text: its comma-separated pieces.
pub open spec fn entries_of(s: Seq<char>) -> Seq<Seq<char>> {
    split_on(s, ',')
}

/// The request a single entry denotes, or `None` if the entry has no
/// `:` at all (fewer than two fields).
pub open spec fn parse_entry(e: Seq<char>) -> Option<ShortcutRequestView> {
    let k = first_at(e, ':');
    if k == e.len() {
        Option::None
    } else {
        let rest = e.skip(k as int + 1);
        let m = first_at(rest, ':');
        if m == rest.len() {
            Option::Some(
                ShortcutRequestView {
                    id: e.take(k as int),
                    description: rest,
                    preferred_trigger: Option::None,
                },
            )
        } else {
            Option::Some(
                ShortcutRequestView {
                    id: e.take(k as int),
                    description: rest.take(m as int),
                    preferred_trigger: Option::Some(rest.skip(m as int + 1)),
                },
            )
        }
    }
}

/// The request list a whole specification text denotes: one request
/// per entry, or `None` as soon as any entry is malformed.
pub open spec fn parse_spec(s: Seq<char>) -> Option<Seq<ShortcutRequestView>> {
    let entries = entries_of(s);
    if forall|i: int| 0 <= i < entries.len() ==> (#[trigger] parse_entry(entries[i])) is Some {
        Option::Some(Seq::new(entries.len(), |i: int| parse_entry(entries[i]).unwrap()))
    } else {
        Option::None
    }
}

/// The views of a sequence of parsed requests.
pub open spec fn request_views(v: Seq<ShortcutRequest>) -> Seq<ShortcutRequestView> {
    v.map_values(|q: ShortcutRequest| q@)
}

/// Whether an entry carries a third field, the preferred trigger.
pub open spec fn has_trigger_field(e: Seq<char>) -> bool {
    let k = first_at(e, ':');
    let rest = e.skip(k as int + 1);
    k < e.len() && first_at(rest, ':') < rest.len()
}

/// Law: parsing a well-formed text yields exactly one request per
/// comma-separated entry, in order, and a request's preferred trigger
/// is absent exactly when its entry lacks a third field.
pub proof fn lemma_parse_shape(s: Seq<char>, v: Seq<ShortcutRequestView>)
    requires
        parse_spec(s) == Option::Some(v),
    ensures
        v.len() == entries_of(s).len(),
        forall|i: int|
            0 <= i < v.len() ==> ((#[trigger] v[i]).preferred_trigger is None <==> !has_trigger_field(
                entries_of(s)[i],
            )),
{
    let entries = entries_of(s);
    assert(v == Seq::new(entries.len(), |i: int| parse_entry(entries[i]).unwrap()));
    assert forall|i: int|
        0 <= i < v.len() implies ((#[trigger] v[i]).preferred_trigger is None
        <==> !has_trigger_field(entries[i])) by {
        let e = entries[i];
        assert(parse_entry(e) is Some);
        assert(v[i] == parse_entry(e).unwrap());
        let k = first_at(e, ':');
        lemma_first_at(e, ':');
        assert(k < e.len());
        let rest = e.skip(k as int + 1);
        let m = first_at(rest, ':');
        lemma_first_at(rest, ':');
        if m == rest.len() {
            assert(v[i].preferred_trigger is None);
            assert(!has_trigger_field(e));
        } else {
            assert(v[i].preferred_trigger is Some);
            assert(has_trigger_field(e));
        }
    }
}

/// Law: one malformed entry (an entry with no `:`) invalidates the
/// whole batch — parsing never yields a partial list.
pub proof fn lemma_malformed_entry_rejects_batch(s: Seq<char>, i: int)
    requires
        0 <= i < entries_of(s).len(),
        !entries_of(s)[i].contains(':'),
    ensures
        parse_spec(s) is None,
{
    let entries = entries_of(s);
    lemma_first_at(entries[i], ':');
    if first_at(entries[i], ':') < entries[i].len() {
        assert(entries[i][first_at(entries[i], ':') as int] == ':');
        assert(entries[i].contains(':'));
        assert(false);
    }
    assert(parse_entry(entries[i]) is None);
    if parse_spec(s) is Some {
        assert(parse_entry(entries[i]) is Some);
        assert(false);
    }
}

/// Index of the first occurrence of `c` in `s` within `[from, end)`,
/// or `end` if there is none.
fn find_from(s: &str, from: usize, end: usize, c: char) -> (r: usize)
    requires
        from <= end <= s@.len(),
    ensures
        from <= r <= end,
        forall|j: int| from <= j < r ==> s@[j] != c,
        r < end ==> s@[r as int] == c,
{
    let mut i: usize = from;
    while i < end
        invariant
            from <= i <= end,
            end <= s@.len(),
            forall|j: int| from <= j < i ==> s@[j] != c,
        decreases end - i,
    {
        if s.get_char(i) == c {
            return i;
        }
        i = i + 1;
    }
    i
}

/// Parse one entry: the characters of `s` in `[start, end)`.
fn parse_entry_exec(s: &str, start: usize, end: usize) -> (r: Option<ShortcutRequest>)
    requires
        start <= end <= s@.len(),
    ensures
        match r {
            Option::Some(q) => parse_entry(s@.subrange(start as int, end as int)) == Option::Some(
                q@,
            ),
            Option::None => parse_entry(s@.subrange(start as int, end as int)) is None,
        },
{
    let ghost e = s@.subrange(start as int, end as int);
    let c1 = find_from(s, start, end, ':');
    proof {
        assert forall|j: int| 0 <= j < c1 - start implies e[j] != ':' by {
            assert(e[j] == s@[start + j]);
        }
        if c1 < end {
            assert(e[c1 - start] == s@[c1 as int]);
        }
        lemma_first_at_is(e, ':', c1 - start);
    }
    if c1 == end {
        return Option::None;
    }
    let id = s.substring_char(start, c1).to_owned();
    let ghost rest = e.skip(c1 - start + 1);
    let c2 = find_from(s, c1 + 1, end, ':');
    proof {
        assert(rest.len() == end - c1 - 1);
        assert forall|j: int| 0 <= j < c2 - c1 - 1 implies rest[j] != ':' by {
            assert(rest[j] == s@[c1 + 1 + j]);
        }
        if c2 < end {
            assert(rest[c2 - c1 - 1] == s@[c2 as int]);
        }
        lemma_first_at_is(rest, ':', c2 - c1 - 1);
        assert(e.take(c1 - start) =~= s@.subrange(start as int, c1 as int));
    }
    if c2 == end {
        let description = s.substring_char(c1 + 1, end).to_owned();
        proof {
            assert(rest =~= s@.subrange(c1 + 1, end as int));
        }
        Option::Some(
            ShortcutRequest { id, description, preferred_trigger: Option::None },
        )
    } else {
        let description = s.substring_char(c1 + 1, c2).to_owned();
        let trigger = s.substring_char(c2 + 1, end).to_owned();
        proof {
            assert(rest.take(c2 - c1 - 1) =~= s@.subrange(c1 + 1, c2 as int));
            assert(rest.skip(c2 - c1 - 1 + 1) =~= s@.subrange(c2 + 1, end as int));
        }
        Option::Some(
            ShortcutRequest { id, description, preferred_trigger: Option::Some(trigger) },
        )
    }
}

/// Parse a whole specification text into its shortcut requests.
///
/// Returns the request of every comma-separated entry, in order, or
/// `None` if any entry lacks a `:` — the batch is rejected as a whole.
pub fn parse_shortcuts(text: &str) -> (r: Option<Vec<ShortcutRequest>>)
    ensures
        match r {
            Option::Some(v) => parse_spec(text@) == Option::Some(request_views(v@)),
            Option::None => parse_spec(text@) is None,
        },
{
    let len = text.unicode_len();
    let ghost entries = entries_of(text@);
    let mut out: Vec<ShortcutRequest> = Vec::new();
    let mut pos: usize = 0;
    let mut more = true;
    proof {
        assert(text@.skip(0) =~= text@);
    }
    while more
        invariant
            len == text@.len(),
            entries == entries_of(text@),
            more ==> pos <= len,
            more ==> split_on(text@.skip(pos as int), ',') =~= entries.skip(out@.len() as int),
            more ==> out@.len() <= entries.len(),
            !more ==> out@.len() == entries.len(),
            forall|i: int|
                0 <= i < out@.len() ==> parse_entry(entries[i]) == Option::Some(
                    #[trigger] out@[i]@,
                ),
        decreases len - pos + (if more { 1int } else { 0int }),
    {
        let ghost suffix = text@.skip(pos as int);
        let ghost k = out@.len() as int;
        let comma = find_from(text, pos, len, ',');
        proof {
            assert forall|j: int| 0 <= j < comma - pos implies suffix[j] != ',' by {
                assert(suffix[j] == text@[pos + j]);
            }
            if comma < len {
                assert(suffix[comma - pos] == text@[comma as int]);
            }
            lemma_first_at_is(suffix, ',', comma - pos);
            assert(suffix.take(comma - pos) =~= text@.subrange(pos as int, comma as int));
            // The current entry is next in the remaining split.
            if comma < len {
                assert(split_on(suffix, ',') == seq![suffix.take(comma - pos)] + split_on(
                    suffix.skip(comma - pos + 1),
                    ',',
                ));
                assert(suffix.skip(comma - pos + 1) =~= text@.skip(comma + 1));
            } else {
                assert(split_on(suffix, ',') == seq![suffix]);
                assert(suffix =~= text@.subrange(pos as int, comma as int));
            }
            assert(entries.skip(k)[0] == entries[k]);
            assert(entries[k] == text@.subrange(pos as int, comma as int));
        }
        let q = parse_entry_exec(text, pos, comma);
        match q {
            Option::Some(q) => {
                out.push(q);
                proof {
                    assert(entries.skip(k + 1) =~= entries.skip(k).skip(1));
                }
            },
            Option::None => {
                proof {
                    assert(parse_entry(entries[k]) is None);
                }
                return Option::None;
            },
        }
        if comma == len {
            proof {
                assert(entries.skip(k).len() == 1);
            }
            more = false;
        } else {
            pos = comma + 1;
        }
    }
    proof {
        assert forall|i: int|
            0 <= i < entries.len() implies (#[trigger] parse_entry(entries[i])) is Some
            && parse_entry(entries[i]).unwrap() == request_views(out@)[i] by {
            assert(parse_entry(entries[i]) == Option::Some(out@[i]@));
            assert(request_views(out@)[i] == out@[i]@);
        }
        assert(Seq::new(entries.len(), |i: int| parse_entry(entries[i]).unwrap())
            =~= request_views(out@));
    }
    Option::Some(out)
}

} // verus!
