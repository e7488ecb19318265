use vstd::prelude::*;

pub mod argument_validation;
pub mod visualization;

verus! {

broadcast use vstd::string::group_string_axioms;

/// Index of the last `'.'` in `s`, or -1 when there is none.
pub open spec fn last_dot(s: Seq<char>) -> int
    decreases s.len(),
{
    if s.len() == 0 {
        -1
    } else if s.last() == '.' {
        s.len() - 1
    } else {
        last_dot(s.drop_last())
    }
}

/// The extension of a file path: what follows its last `'.'`, or nothing when
/// the path holds no `'.'`.
pub open spec fn extension_of(s: Seq<char>) -> Option<Seq<char>> {
    if last_dot(s) < 0 {
        None
    } else {
        Some(s.subrange(last_dot(s) + 1, s.len() as int))
    }
}

proof fn lemma_last_dot(s: Seq<char>)
    ensures
        -1 <= last_dot(s) < s.len(),
        last_dot(s) >= 0 ==> s[last_dot(s)] == '.',
        forall|k: int| last_dot(s) < k < s.len() ==> s[k] != '.',
    decreases s.len(),
{
    if s.len() > 0 && s.last() != '.' {
        let t = s.drop_last();
        lemma_last_dot(t);
        assert forall|k: int| last_dot(s) < k < s.len() implies s[k] != '.' by {
            if k < s.len() - 1 {
                assert(s[k] == t[k]);
            }
        }
    }
}

/// The characters of `s`, in order.
pub fn chars_of(s: &str) -> (r: Vec<char>)
    ensures
        r@ == s@,
{
    let mut v: Vec<char> = Vec::new();
    for c in it: s.chars()
        invariant
            it.seq() == s@,
            v@ == it.seq().take(it.index() as int),
    {
        v.push(c);
    }
    v
}

/// Relies on `String`'s `FromIterator<char>`: collecting characters into a
/// string keeps them, in order.
#[verifier::external_body]
pub(crate) fn string_from_chars(chars: &[char]) -> (r: String)
    ensures
        r@ == chars@,
{
    chars.iter().collect()
}

/// Whether two pieces of text hold the same characters.
pub fn same_text(a: &str, b: &str) -> (r: bool)
    ensures
        r == (a@ == b@),
{
    a.to_owned() == b.to_owned()
}

/// The extension of `file_path`: the text after its last `'.'`, or `None`
/// when it holds no `'.'`.
pub fn file_extension(file_path: &str) -> (r: Option<String>)
    ensures
        r is None <==> extension_of(file_path@) is None,
        r is Some ==> r->0@ == extension_of(file_path@)->0,
{
    let chars = chars_of(file_path);
    let mut i: usize = chars.len();
    assert(chars@.subrange(0, i as int) =~= chars@);
    while i > 0 && chars[i - 1] != '.'
        invariant
            i <= chars@.len(),
            chars@ == file_path@,
            last_dot(chars@) == last_dot(chars@.subrange(0, i as int)),
        decreases i,
    {
        assert(chars@.subrange(0, i as int).drop_last() =~= chars@.subrange(0, i - 1));
        i = i - 1;
    }
    if i == 0 {
        assert(chars@.subrange(0, 0) =~= Seq::<char>::empty());
        return None;
    }
    proof {
        lemma_last_dot(chars@);
        lemma_last_dot(chars@.subrange(0, i as int));
    }
    let mut tail: Vec<char> = Vec::new();
    for k in i..chars.len()
        invariant
            i <= chars@.len(),
            tail@ == chars@.subrange(i as int, k as int),
    {
        tail.push(chars[k]);
    }
    Some(string_from_chars(tail.as_slice()))
}

/// The image path that goes with an audio path: everything up to and including
/// the last `'.'` that is not the final character, followed by `png`; a path
/// without such a `'.'` is kept as it is.
pub open spec fn default_output_of(s: Seq<char>) -> Seq<char> {
    if s.len() == 0 || last_dot(s.drop_last()) < 0 {
        s
    } else {
        s.subrange(0, last_dot(s.drop_last()) + 1) + "png"@
    }
}

/// The image path that goes with the audio file `input_file`.
pub fn default_output_file(input_file: &str) -> (r: String)
    ensures
        r@ == default_output_of(input_file@),
{
    let chars = chars_of(input_file);
    if chars.len() == 0 {
        return input_file.to_owned();
    }
    let ghost head = chars@.drop_last();
    let mut i: usize = chars.len() - 1;
    assert(head.subrange(0, i as int) =~= head);
    while i > 0 && chars[i - 1] != '.'
        invariant
            i < chars@.len(),
            chars@ == input_file@,
            head == chars@.drop_last(),
            last_dot(head) == last_dot(head.subrange(0, i as int)),
        decreases i,
    {
        assert(head.subrange(0, i as int).drop_last() =~= head.subrange(0, i - 1));
        i = i - 1;
    }
    if i == 0 {
        assert(head.subrange(0, 0) =~= Seq::<char>::empty());
        return input_file.to_owned();
    }
    proof {
        lemma_last_dot(head.subrange(0, i as int));
    }
    let mut prefix: Vec<char> = Vec::new();
    for k in 0..i
        invariant
            i < chars@.len(),
            prefix@ == chars@.subrange(0, k as int),
    {
        prefix.push(chars[k]);
    }
    let mut path = string_from_chars(prefix.as_slice());
    path.append("png");
    path
}

} // verus!
