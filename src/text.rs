//! Small text operations on market symbols and topics.

use vstd::prelude::*;

verus! {

/// What `str::to_uppercase` makes of a text.
pub uninterp spec fn upper_of(s: Seq<char>) -> Seq<char>;

/// What `str::to_lowercase` makes of a text.
pub uninterp spec fn lower_of(s: Seq<char>) -> Seq<char>;

/// Relies on `str::to_uppercase`, whose result depends on the text alone.
#[verifier::external_body]
fn uppercase(s: &str) -> (r: String)
    ensures
        r@ == upper_of(s@),
{
    s.to_uppercase()
}

/// Relies on `str::to_lowercase`, whose result depends on the text alone.
#[verifier::external_body]
fn lowercase(s: &str) -> (r: String)
    ensures
        r@ == lower_of(s@),
{
    s.to_lowercase()
}

/// Relies on `String::push`, which appends one character.
#[verifier::external_body]
pub(crate) fn push_char(s: &mut String, c: char)
    ensures
        final(s)@ == old(s)@.push(c),
{
    s.push(c)
}

/// The pieces of `s` between occurrences of `sep`, as `str::split` gives them.
pub open spec fn split_on(s: Seq<char>, sep: char) -> Seq<Seq<char>>
    decreases s.len(),
{
    if s.len() == 0 {
        seq![Seq::<char>::empty()]
    } else {
        let parts = split_on(s.drop_last(), sep);
        if s.last() == sep {
            parts.push(Seq::<char>::empty())
        } else {
            parts.update(parts.len() - 1, parts.last().push(s.last()))
        }
    }
}

/// `s` without any `c`.
pub open spec fn strip(s: Seq<char>, c: char) -> Seq<char>
    decreases s.len(),
{
    if s.len() == 0 {
        s
    } else if s.last() == c {
        strip(s.drop_last(), c)
    } else {
        strip(s.drop_last(), c).push(s.last())
    }
}

/// The parts, with `sep` between each two.
pub open spec fn join(parts: Seq<Seq<char>>, sep: Seq<char>) -> Seq<char>
    decreases parts.len(),
{
    if parts.len() == 0 {
        Seq::empty()
    } else if parts.len() == 1 {
        parts[0]
    } else {
        join(parts.drop_last(), sep) + sep + parts.last()
    }
}

proof fn lemma_split_nonempty(s: Seq<char>, sep: char)
    ensures
        split_on(s, sep).len() >= 1,
    decreases s.len(),
{
    if s.len() > 0 {
        lemma_split_nonempty(s.drop_last(), sep);
    }
}

/// The second piece of `s` split at `sep`, with every `drop` left out;
/// `None` where `s` holds no `sep`.
pub fn second_piece_without(s: &str, sep: char, drop: char) -> (r: Option<String>)
    ensures
        match r {
            Some(x) => split_on(s@, sep).len() > 1 && x@ == strip(split_on(s@, sep)[1], drop),
            None => split_on(s@, sep).len() <= 1,
        },
{
    let n = s.unicode_len();
    let mut seps: usize = 0;
    let mut piece = String::new();
    let mut i: usize = 0;
    proof {
        assert(s@.take(0) =~= Seq::<char>::empty());
    }
    while i < n
        invariant
            n == s@.len(),
            i <= n,
            seps + 1 == split_on(s@.take(i as int), sep).len(),
            seps <= i,
            piece@ == (if seps >= 1 {
                strip(split_on(s@.take(i as int), sep)[1], drop)
            } else {
                Seq::<char>::empty()
            }),
        decreases n - i,
    {
        let c = s.get_char(i);
        let ghost prev = s@.take(i as int);
        let ghost next = s@.take(i + 1);
        proof {
            assert(next.drop_last() =~= prev);
            assert(next.last() == c);
            lemma_split_nonempty(prev, sep);
        }
        if c == sep {
            seps = seps + 1;
            proof {
                if seps == 1 {
                    assert(split_on(next, sep)[1] == Seq::<char>::empty());
                } else {
                    assert(split_on(next, sep)[1] == split_on(prev, sep)[1]);
                }
            }
        } else {
            if seps == 1 && c != drop {
                push_char(&mut piece, c);
            }
            proof {
                let parts = split_on(prev, sep);
                let last = parts.last().push(c);
                if seps == 1 {
                    assert(split_on(next, sep)[1] == last);
                    assert(last.drop_last() =~= parts[1]);
                } else if seps > 1 {
                    assert(split_on(next, sep)[1] == split_on(prev, sep)[1]);
                }
            }
        }
        i = i + 1;
    }
    proof {
        assert(s@.take(n as int) =~= s@);
    }
    if seps >= 1 {
        Some(piece)
    } else {
        None
    }
}

/// The pieces of `s` between occurrences of `sep`, as `str::split` gives them.
pub fn split_texts(s: &str, sep: char) -> (r: Vec<String>)
    ensures
        r@.map_values(|p: String| p@) == split_on(s@, sep),
{
    let n = s.unicode_len();
    let mut parts: Vec<String> = Vec::new();
    let mut piece = String::new();
    let mut i: usize = 0;
    proof {
        assert(s@.take(0) =~= Seq::<char>::empty());
        assert(parts@.map_values(|p: String| p@).push(piece@) =~= split_on(Seq::<char>::empty(), sep));
    }
    while i < n
        invariant
            n == s@.len(),
            i <= n,
            parts@.map_values(|p: String| p@).push(piece@) == split_on(s@.take(i as int), sep),
        decreases n - i,
    {
        let c = s.get_char(i);
        let ghost prev = s@.take(i as int);
        let ghost next = s@.take(i + 1);
        let ghost before = parts@.map_values(|p: String| p@);
        proof {
            assert(next.drop_last() =~= prev);
            assert(next.last() == c);
        }
        if c == sep {
            let done = piece;
            piece = String::new();
            parts.push(done);
            proof {
                assert(parts@.map_values(|p: String| p@) =~= before.push(done@));
            }
        } else {
            let ghost old_piece = piece@;
            push_char(&mut piece, c);
            proof {
                let old_parts = before.push(old_piece);
                assert(old_parts.last() == old_piece);
                assert(before.push(piece@) =~= old_parts.update(old_parts.len() - 1, old_parts.last().push(c)));
            }
        }
        i = i + 1;
    }
    parts.push(piece);
    proof {
        assert(s@.take(n as int) =~= s@);
    }
    parts
}

/// The text in capitals.
pub fn to_upper(s: &str) -> (r: String)
    ensures
        r@ == upper_of(s@),
{
    uppercase(s)
}

/// The text in small letters.
pub fn to_lower(s: &str) -> (r: String)
    ensures
        r@ == lower_of(s@),
{
    lowercase(s)
}

/// The texts joined, with `sep` between each two.
pub fn join_texts(parts: &Vec<String>, sep: &str) -> (r: String)
    ensures
        r@ == join(parts@.map_values(|p: String| p@), sep@),
{
    let ghost views = parts@.map_values(|p: String| p@);
    let mut out = String::new();
    let mut i: usize = 0;
    while i < parts.len()
        invariant
            i <= parts@.len(),
            views == parts@.map_values(|p: String| p@),
            out@ == join(views.take(i as int), sep@),
        decreases parts@.len() - i,
    {
        proof {
            assert(views.take(i + 1).drop_last() =~= views.take(i as int));
        }
        if i > 0 {
            out.append(sep);
        }
        out.append(parts[i].as_str());
        i = i + 1;
    }
    proof {
        assert(views.take(parts@.len() as int) =~= views);
    }
    out
}

} // verus!
