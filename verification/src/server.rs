//! Settings of the scan service that come from its environment.
use crate::api::ApiConfig;
use crate::text;
use vstd::prelude::*;
use vstd::string::StrSliceExecFns;

verus! {

/// The character has the Unicode property `White_Space`.
pub open spec fn is_space(c: char) -> bool {
    ||| '\u{9}' <= c <= '\u{d}'
    ||| c == ' '
    ||| c == '\u{85}'
    ||| c == '\u{a0}'
    ||| c == '\u{1680}'
    ||| '\u{2000}' <= c <= '\u{200a}'
    ||| c == '\u{2028}'
    ||| c == '\u{2029}'
    ||| c == '\u{202f}'
    ||| c == '\u{205f}'
    ||| c == '\u{3000}'
}

fn space(c: char) -> (r: bool)
    ensures
        r == is_space(c),
{
    ('\u{9}' <= c && c <= '\u{d}') || c == ' ' || c == '\u{85}' || c == '\u{a0}' || c == '\u{1680}'
        || ('\u{2000}' <= c && c <= '\u{200a}') || c == '\u{2028}' || c == '\u{2029}' || c
        == '\u{202f}' || c == '\u{205f}' || c == '\u{3000}'
}

/// The text without the white space around it.
pub open spec fn trimmed(s: Seq<char>) -> Seq<char>
    decreases s.len(),
{
    if s.len() == 0 {
        s
    } else if is_space(s[0]) {
        trimmed(s.drop_first())
    } else if is_space(s.last()) {
        trimmed(s.drop_last())
    } else {
        s
    }
}

/// The texts between the commas.
pub open spec fn pieces(s: Seq<char>) -> Seq<Seq<char>>
    decreases s.len(),
{
    if s.len() == 0 {
        seq![s]
    } else {
        let before = pieces(s.drop_last());
        if s.last() == ',' {
            before.push(Seq::empty())
        } else {
            before.drop_last().push(before.last().push(s.last()))
        }
    }
}

/// The texts without the white space around them, if anything is left.
pub open spec fn kept(parts: Seq<Seq<char>>) -> Seq<Seq<char>>
    decreases parts.len(),
{
    if parts.len() == 0 {
        parts
    } else {
        let before = kept(parts.drop_last());
        let last = trimmed(parts.last());
        if last.len() == 0 {
            before
        } else {
            before.push(last)
        }
    }
}

proof fn lemma_pieces(s: Seq<char>)
    ensures
        pieces(s).len() > 0,
    decreases s.len(),
{
    if s.len() > 0 {
        lemma_pieces(s.drop_last());
    }
}

/// The last piece is what stands behind the last comma.
proof fn lemma_last_piece(s: Seq<char>, from: int)
    requires
        0 <= from <= s.len(),
        from > 0 ==> s[from - 1] == ',',
        forall|i: int| from <= i < s.len() ==> s[i] != ',',
    ensures
        pieces(s).last() == s.subrange(from, s.len() as int),
        from > 0 ==> pieces(s).drop_last() == pieces(s.take(from - 1)),
        from == 0 ==> pieces(s).drop_last() == Seq::<Seq<char>>::empty(),
    decreases s.len(),
{
    lemma_pieces(s);
    if s.len() == 0 {
        assert(s.subrange(0, 0) =~= s);
        assert(pieces(s).drop_last() =~= Seq::<Seq<char>>::empty());
    } else if from == s.len() {
        assert(s.subrange(from, from) =~= Seq::<char>::empty());
        assert(s.drop_last() =~= s.take(from - 1));
        assert(pieces(s).drop_last() =~= pieces(s.drop_last()));
    } else {
        let t = s.drop_last();
        assert(forall|i: int| from <= i < t.len() ==> t[i] == s[i]);
        lemma_last_piece(t, from);
        assert(pieces(s).drop_last() =~= pieces(t).drop_last());
        assert(t.subrange(from, t.len() as int).push(s.last()) =~= s.subrange(
            from,
            s.len() as int,
        ));
        if from > 0 {
            assert(t.take(from - 1) =~= s.take(from - 1));
        }
    }
}

/// The part of `s` from `from` to `to` without the white space around it.
fn trim(s: &str, from: usize, to: usize) -> (r: (usize, usize))
    requires
        from <= to <= s@.len(),
    ensures
        from <= r.0 <= r.1 <= to,
        s@.subrange(r.0 as int, r.1 as int) == trimmed(s@.subrange(from as int, to as int)),
{
    let mut a: usize = from;
    let mut b: usize = to;
    while a < b && space(s.get_char(a))
        invariant
            from <= a <= b,
            b == to,
            to <= s@.len(),
            trimmed(s@.subrange(a as int, b as int)) == trimmed(
                s@.subrange(from as int, to as int),
            ),
        decreases b - a,
    {
        proof {
            assert(s@.subrange(a as int, b as int).drop_first() =~= s@.subrange(a + 1, b as int));
        }
        a += 1;
    }
    while a < b && space(s.get_char(b - 1))
        invariant
            from <= a <= b <= to,
            to <= s@.len(),
            a < b ==> !is_space(s@[a as int]),
            trimmed(s@.subrange(a as int, b as int)) == trimmed(
                s@.subrange(from as int, to as int),
            ),
        decreases b - a,
    {
        proof {
            assert(s@.subrange(a as int, b as int).drop_last() =~= s@.subrange(a as int, b - 1));
        }
        b -= 1;
    }
    (a, b)
}

/// The keys in a comma-separated list: the texts between the commas without the white
/// space around them, if anything is left.
#[must_use]
pub fn split_keys(raw: &str) -> (r: Vec<String>)
    ensures
        text::views(r@) == kept(pieces(raw@)),
{
    let n: usize = raw.unicode_len();
    let mut r: Vec<String> = Vec::new();
    let mut from: usize = 0;
    let mut i: usize = 0;
    proof {
        assert(raw@.take(0) =~= Seq::<char>::empty());
        assert(text::views(r@) =~= Seq::<Seq<char>>::empty());
    }
    while i < n
        invariant
            n == raw@.len(),
            from <= i <= n,
            from > 0 ==> raw@[from - 1] == ',',
            forall|j: int| from <= j < i ==> raw@[j] != ',',
            from == 0 ==> r@.len() == 0,
            from > 0 ==> text::views(r@) == kept(pieces(raw@.take(from - 1))),
        decreases n - i,
    {
        if raw.get_char(i) == ',' {
            let ghost s = raw@.take(i as int);
            proof {
                lemma_last_piece(s, from as int);
                lemma_pieces(s);
                assert(s.subrange(from as int, s.len() as int) =~= raw@.subrange(
                    from as int,
                    i as int,
                ));
                if from > 0 {
                    assert(s.take(from - 1) =~= raw@.take(from - 1));
                } else {
                    assert(text::views(r@) =~= Seq::<Seq<char>>::empty());
                }
            }
            keep(&mut r, raw, from, i, Ghost(s));
            from = i + 1;
        }
        i += 1;
    }
    proof {
        lemma_last_piece(raw@, from as int);
        lemma_pieces(raw@);
        if from == 0 {
            assert(text::views(r@) =~= Seq::<Seq<char>>::empty());
        }
    }
    keep(&mut r, raw, from, n, Ghost(raw@));
    r
}

/// Puts the part of `raw` from `from` to `to`, the last piece of `s`, into the list.
fn keep(r: &mut Vec<String>, raw: &str, from: usize, to: usize, Ghost(s): Ghost<Seq<char>>)
    requires
        from <= to <= raw@.len(),
        pieces(s).len() > 0,
        pieces(s).last() == raw@.subrange(from as int, to as int),
        text::views(old(r)@) == kept(pieces(s).drop_last()),
    ensures
        text::views(final(r)@) == kept(pieces(s)),
{
    let (a, b) = trim(raw, from, to);
    if a < b {
        let piece = raw.substring_char(a, b);
        r.push(piece.to_string());
        proof {
            assert(text::views(r@) =~= text::views(old(r)@).push(piece@));
        }
    }
}

/// The configuration of the service: listening where the environment says, and with
/// the keys that it gives. Without any, the one accepted key is `fresh_key`, which was
/// made for this.
#[must_use]
pub fn server_config(listen: Option<String>, keys: Option<String>, fresh_key: String) -> (r:
    ApiConfig)
    ensures
        match listen {
            Some(a) => r.listen_addr == a,
            None => r.listen_addr@ == "127.0.0.1:8080"@,
        },
        match keys {
            Some(raw) => if kept(pieces(raw@)).len() > 0 {
                text::views(r.api_keys@) == kept(pieces(raw@))
            } else {
                r.api_keys@ == seq![fresh_key]
            },
            None => r.api_keys@ == seq![fresh_key],
        },
        r.max_concurrent_scans == 5,
        r.enable_sse,
        r.result_retention == 86_400_000_000_000,
{
    let listen_addr = match listen {
        Some(a) => a,
        None => "127.0.0.1:8080".to_string(),
    };
    let config = ApiConfig::new(fresh_key).with_listen_addr(listen_addr).with_max_concurrent_scans(
        5,
    );
    match keys {
        Some(raw) => {
            let list = split_keys(raw.as_str());
            assert(text::views(list@).len() == list@.len());
            if list.len() > 0 {
                config.with_api_keys(list)
            } else {
                config
            }
        },
        None => config,
    }
}

/// No key is empty or has white space around it, so no client is let in for having
/// sent nothing.
pub proof fn keys_are_trimmed(parts: Seq<Seq<char>>)
    ensures
        forall|i: int|
            0 <= i < kept(parts).len() ==> (#[trigger] kept(parts)[i]).len() > 0 && !is_space(
                kept(parts)[i][0],
            ) && !is_space(kept(parts)[i].last()),
    decreases parts.len(),
{
    if parts.len() > 0 {
        let before = kept(parts.drop_last());
        keys_are_trimmed(parts.drop_last());
        lemma_trimmed(parts.last());
        assert forall|i: int| 0 <= i < kept(parts).len() implies (#[trigger] kept(parts)[i]).len()
            > 0 && !is_space(kept(parts)[i][0]) && !is_space(kept(parts)[i].last()) by {
            if i < before.len() {
                assert(kept(parts)[i] == before[i]);
            }
        }
    }
}

proof fn lemma_trimmed(s: Seq<char>)
    ensures
        trimmed(s).len() > 0 ==> !is_space(trimmed(s)[0]) && !is_space(trimmed(s).last()),
    decreases s.len(),
{
    if s.len() > 0 {
        if is_space(s[0]) {
            lemma_trimmed(s.drop_first());
        } else if is_space(s.last()) {
            lemma_trimmed(s.drop_last());
        }
    }
}

/// The pieces of a text are what stands between its commas: put together with commas they
/// give the text back, and none of them holds a comma.
pub proof fn pieces_stand_between_commas(s: Seq<char>)
    ensures
        text::join_spec(pieces(s), seq![',']) == s,
        forall|i: int| 0 <= i < pieces(s).len() ==> !(#[trigger] pieces(s)[i]).contains(','),
        pieces(s).len() > 0,
    decreases s.len(),
{
    lemma_pieces(s);
    let comma = seq![','];
    if s.len() > 0 {
        let t = s.drop_last();
        let before = pieces(t);
        let now = pieces(s);
        pieces_stand_between_commas(t);
        if s.last() == ',' {
            text::joining_keeps_the_order(before, comma, Seq::empty());
            assert(t + comma + Seq::<char>::empty() =~= s);
            assert forall|i: int| 0 <= i < now.len() implies !(#[trigger] now[i]).contains(',') by {
                if i < before.len() {
                    assert(now[i] == before[i]);
                }
            }
        } else {
            let head = before.drop_last();
            let tail = before.last();
            let grown = tail.push(s.last());
            assert(head.push(tail) =~= before);
            if head.len() > 0 {
                text::joining_keeps_the_order(head, comma, tail);
                text::joining_keeps_the_order(head, comma, grown);
                assert(text::join_spec(head, comma) + comma + grown =~= (text::join_spec(
                    head,
                    comma,
                ) + comma + tail).push(s.last()));
            } else {
                assert(before =~= seq![tail]);
                assert(now =~= seq![grown]);
            }
            assert(t.push(s.last()) =~= s);
            assert forall|i: int| 0 <= i < now.len() implies !(#[trigger] now[i]).contains(',') by {
                if i < head.len() {
                    assert(now[i] == before[i]);
                } else {
                    assert(!before[before.len() - 1].contains(','));
                    if grown.contains(',') {
                        let j = grown.index_of(',');
                        assert(tail[j] == ',');
                    }
                }
            }
        }
    } else {
        assert(pieces(s) =~= seq![s]);
    }
}

/// Trimming takes away white space at both ends and nothing else: what is left is a part
/// of the text, and all before and behind it is white space.
pub proof fn trimming_takes_only_white_space(s: Seq<char>) -> (r: (int, int))
    ensures
        0 <= r.0 <= r.1 <= s.len(),
        trimmed(s) == s.subrange(r.0, r.1),
        forall|i: int| 0 <= i < r.0 ==> is_space(#[trigger] s[i]),
        forall|i: int| r.1 <= i < s.len() ==> is_space(#[trigger] s[i]),
        r.0 < r.1 ==> !is_space(s[r.0]) && !is_space(s[r.1 - 1]),
    decreases s.len(),
{
    if s.len() == 0 {
        assert(s.subrange(0, 0) =~= s);
        (0, 0)
    } else if is_space(s[0]) {
        let t = s.drop_first();
        let r = trimming_takes_only_white_space(t);
        assert(t.subrange(r.0, r.1) =~= s.subrange(r.0 + 1, r.1 + 1));
        assert forall|i: int| 0 <= i < r.0 + 1 implies is_space(#[trigger] s[i]) by {
            if i > 0 {
                assert(t[i - 1] == s[i]);
            }
        }
        assert forall|i: int| r.1 + 1 <= i < s.len() implies is_space(#[trigger] s[i]) by {
            assert(t[i - 1] == s[i]);
        }
        (r.0 + 1, r.1 + 1)
    } else if is_space(s.last()) {
        let t = s.drop_last();
        let r = trimming_takes_only_white_space(t);
        assert(t.subrange(r.0, r.1) =~= s.subrange(r.0, r.1));
        assert forall|i: int| 0 <= i < r.0 implies is_space(#[trigger] s[i]) by {
            assert(t[i] == s[i]);
        }
        assert forall|i: int| r.1 <= i < s.len() implies is_space(#[trigger] s[i]) by {
            if i < t.len() {
                assert(t[i] == s[i]);
            }
        }
        (r.0, r.1)
    } else {
        assert(s.subrange(0, s.len() as int) =~= s);
        (0, s.len() as int)
    }
}

/// Blanks, tabs and line ends are white space; what keys are made of is not.
pub proof fn keys_are_no_white_space(c: char)
    ensures
        c == ' ' || c == '\t' || c == '\n' || c == '\r' ==> is_space(c),
        '!' <= c <= '~' ==> !is_space(c),
{
}

/// The keys that are kept are the trimmed pieces of which anything is left.
pub proof fn kept_keys_are_the_pieces(parts: Seq<Seq<char>>, key: Seq<char>)
    ensures
        kept(parts).contains(key) <==> key.len() > 0 && exists|i: int|
            0 <= i < parts.len() && trimmed(#[trigger] parts[i]) == key,
        kept(parts).len() <= parts.len(),
    decreases parts.len(),
{
    let now = kept(parts);
    if parts.len() > 0 {
        let rest = parts.drop_last();
        let before = kept(rest);
        kept_keys_are_the_pieces(rest, key);
        if before.contains(key) {
            let k = before.index_of(key);
            assert(now[k] == key);
            let i = choose|i: int| 0 <= i < rest.len() && trimmed(#[trigger] rest[i]) == key;
            assert(trimmed(parts[i]) == key);
        }
        if now.contains(key) {
            let k = now.index_of(key);
            if k < before.len() {
                assert(before[k] == key);
            } else {
                assert(trimmed(parts[parts.len() - 1]) == key);
            }
        }
        if key.len() > 0 && exists|i: int|
            0 <= i < parts.len() && trimmed(#[trigger] parts[i]) == key {
            let i = choose|i: int| 0 <= i < parts.len() && trimmed(#[trigger] parts[i]) == key;
            if i < rest.len() {
                assert(trimmed(rest[i]) == key);
            } else {
                assert(now[now.len() - 1] == key);
            }
        }
    } else {
        assert(now.len() == 0);
    }
}

} // verus!
