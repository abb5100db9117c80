//! Characters of command lines: whitespace, trimming and splitting at spaces.
use vstd::prelude::*;

verus! {

/// The characters of a string slice, in order.
pub fn chars_of(s: &str) -> (res: Vec<char>)
    ensures
        res@ == s@,
{
    let mut res: Vec<char> = Vec::new();
    for c in it: s.chars()
        invariant
            res@ == it.seq().take(it.index() as int),
            it.seq() == s@,
    {
        res.push(c);
    }
    res
}


/// Calls `String::push`, which appends one character.
#[verifier::external_body]
fn push_char(s: &mut String, c: char)
    ensures
        final(s)@ == old(s)@.push(c),
{
    s.push(c);
}

/// The characters with the Unicode `White_Space` property, those for which
/// `char::is_whitespace` holds.
pub open spec fn is_white_space(c: char) -> bool {
    let u = c as u32;
    ||| 0x9 <= u <= 0xd
    ||| u == 0x20
    ||| u == 0x85
    ||| u == 0xa0
    ||| u == 0x1680
    ||| 0x2000 <= u <= 0x200a
    ||| u == 0x2028
    ||| u == 0x2029
    ||| u == 0x202f
    ||| u == 0x205f
    ||| u == 0x3000
}

/// Whether `c` is whitespace.
pub fn is_whitespace(c: char) -> (res: bool)
    ensures
        res == is_white_space(c),
{
    let u = c as u32;
    (0x9 <= u && u <= 0xd) || u == 0x20 || u == 0x85 || u == 0xa0 || u == 0x1680 || (0x2000 <= u
        && u <= 0x200a) || u == 0x2028 || u == 0x2029 || u == 0x202f || u == 0x205f || u == 0x3000
}

/// `s` without its trailing whitespace.
pub open spec fn trim_end(s: Seq<char>) -> Seq<char>
    decreases s.len(),
{
    if s.len() > 0 && is_white_space(s.last()) {
        trim_end(s.drop_last())
    } else {
        s
    }
}

/// The pieces of `s` between spaces, in order: one more piece than there are
/// spaces, empty ones included.
pub open spec fn split_on_space(s: Seq<char>) -> Seq<Seq<char>>
    decreases s.len(),
{
    if s.len() == 0 {
        seq![Seq::<char>::empty()]
    } else {
        let prev = split_on_space(s.drop_last());
        if s.last() == ' ' {
            prev.push(Seq::<char>::empty())
        } else {
            prev.update(prev.len() - 1, prev.last().push(s.last()))
        }
    }
}

pub proof fn lemma_split_nonempty(s: Seq<char>)
    ensures
        split_on_space(s).len() >= 1,
    decreases s.len(),
{
    if s.len() > 0 {
        lemma_split_nonempty(s.drop_last());
    }
}

/// The views of a list of strings.
pub open spec fn strings_view(v: Seq<String>) -> Seq<Seq<char>> {
    v.map_values(|s: String| s@)
}

/// The length of `chars` without its trailing whitespace.
pub fn trimmed_len(chars: &Vec<char>) -> (n: usize)
    ensures
        n <= chars@.len(),
        chars@.subrange(0, n as int) == trim_end(chars@),
{
    let mut n = chars.len();
    assert(chars@.subrange(0, n as int) =~= chars@);
    while n > 0 && is_whitespace(chars[n - 1])
        invariant
            n <= chars@.len(),
            trim_end(chars@.subrange(0, n as int)) == trim_end(chars@),
        decreases n,
    {
        proof {
            assert(chars@.subrange(0, n as int).drop_last() =~= chars@.subrange(0, n - 1));
        }
        n = n - 1;
    }
    n
}

/// The pieces between spaces of `chars[from..to]`.
pub fn split_words(chars: &Vec<char>, from: usize, to: usize) -> (res: Vec<String>)
    requires
        from <= to <= chars@.len(),
    ensures
        strings_view(res@) == split_on_space(chars@.subrange(from as int, to as int)),
{
    let mut words: Vec<String> = Vec::new();
    let mut cur = String::new();
    let mut i = from;
    while i < to
        invariant
            from <= i <= to <= chars@.len(),
            strings_view(words@).push(cur@) == split_on_space(chars@.subrange(from as int, i as int)),
        decreases to - i,
    {
        let c = chars[i];
        let ghost pre = strings_view(words@).push(cur@);
        proof {
            assert(chars@.subrange(from as int, i + 1).drop_last() =~= chars@.subrange(
                from as int,
                i as int,
            ));
            lemma_split_nonempty(chars@.subrange(from as int, i as int));
        }
        if c == ' ' {
            words.push(cur);
            cur = String::new();
            proof {
                assert(strings_view(words@).push(cur@) =~= pre.push(Seq::<char>::empty()));
            }
        } else {
            push_char(&mut cur, c);
            proof {
                assert(strings_view(words@).push(cur@) =~= pre.update(
                    pre.len() - 1,
                    pre.last().push(c),
                ));
            }
        }
        i = i + 1;
    }
    words.push(cur);
    proof {
        assert(strings_view(words@) =~= split_on_space(chars@.subrange(from as int, to as int)));
    }
    words
}

} // verus!
