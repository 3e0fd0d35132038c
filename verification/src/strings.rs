//! Verified text handling for the session: trimming user input, splitting a
//! tag line on commas, joining tags back into one field, and deriving the
//! output path of a converted file.

use vstd::prelude::*;

verus! {

/// Characters removed by trimming: the ASCII whitespace set.
pub open spec fn is_space_char(c: char) -> bool {
    c == ' ' || c == '\t' || c == '\n' || c == '\r'
}

/// Index of the first non-whitespace character at or after `from`,
/// or `s.len()` when every remaining character is whitespace.
pub open spec fn first_non_space(s: Seq<char>, from: int) -> int
    decreases s.len() - from,
{
    if from < 0 || from >= s.len() {
        s.len() as int
    } else if is_space_char(s[from]) {
        first_non_space(s, from + 1)
    } else {
        from
    }
}

/// Index of the last non-whitespace character, or -1 when there is none.
pub open spec fn last_non_space(s: Seq<char>) -> int
    decreases s.len(),
{
    if s.len() == 0 {
        -1
    } else if is_space_char(s[s.len() - 1]) {
        last_non_space(s.drop_last())
    } else {
        s.len() - 1
    }
}

/// The string with leading and trailing whitespace removed.
pub open spec fn trim_spec(s: Seq<char>) -> Seq<char> {
    let a = first_non_space(s, 0);
    let b = last_non_space(s);
    if a > b {
        Seq::empty()
    } else {
        s.subrange(a, b + 1)
    }
}

proof fn lemma_first_non_space_at(s: Seq<char>, from: int, k: int)
    requires
        0 <= from <= k <= s.len(),
        forall|j: int| from <= j < k ==> is_space_char(s[j]),
        k < s.len() ==> !is_space_char(s[k]),
    ensures
        first_non_space(s, from) == k,
    decreases k - from,
{
    if from == k {
    } else {
        lemma_first_non_space_at(s, from + 1, k);
    }
}

proof fn lemma_last_non_space_at(s: Seq<char>, k: int)
    requires
        0 <= k <= s.len(),
        forall|j: int| k <= j < s.len() ==> is_space_char(s[j]),
        k > 0 ==> !is_space_char(s[k - 1]),
    ensures
        last_non_space(s) == k - 1,
    decreases s.len(),
{
    if s.len() == 0 {
    } else if k == s.len() {
    } else {
        assert(is_space_char(s[s.len() - 1]));
        assert(s.drop_last() =~= s.subrange(0, s.len() - 1));
        lemma_last_non_space_at(s.drop_last(), k);
    }
}

fn char_is_space(c: char) -> (r: bool)
    ensures
        r == is_space_char(c),
{
    c == ' ' || c == '\t' || c == '\n' || c == '\r'
}

/// Copy of `s` with leading and trailing whitespace removed.
pub fn trim_of(s: &str) -> (r: String)
    ensures
        r@ == trim_spec(s@),
{
    let n = s.unicode_len();
    let mut a: usize = 0;
    while a < n && char_is_space(s.get_char(a))
        invariant
            0 <= a <= n,
            n == s@.len(),
            forall|j: int| 0 <= j < a ==> is_space_char(s@[j]),
        decreases n - a,
    {
        a = a + 1;
    }
    let mut b: usize = n;
    while b > a && char_is_space(s.get_char(b - 1))
        invariant
            a <= b <= n,
            n == s@.len(),
            forall|j: int| 0 <= j < a ==> is_space_char(s@[j]),
            forall|j: int| b <= j < n ==> is_space_char(s@[j]),
            a == n || !is_space_char(s@[a as int]),
        decreases b,
    {
        b = b - 1;
    }
    let piece = s.substring_char(a, b);
    proof {
        lemma_first_non_space_at(s@, 0, a as int);
        if b > a {
            lemma_last_non_space_at(s@, b as int);
            assert(piece@ =~= trim_spec(s@));
        } else {
            assert(a == n);
            lemma_last_non_space_at(s@, 0);
            assert(piece@ =~= trim_spec(s@));
        }
    }
    piece.to_owned()
}

/// Index of the first comma at or after `from`, or `s.len()` when there is none.
pub open spec fn find_comma(s: Seq<char>, from: int) -> int
    decreases s.len() - from,
{
    if from < 0 || from >= s.len() {
        s.len() as int
    } else if s[from] == ',' {
        from
    } else {
        find_comma(s, from + 1)
    }
}

proof fn lemma_find_comma_at(s: Seq<char>, from: int, k: int)
    requires
        0 <= from <= k <= s.len(),
        forall|j: int| from <= j < k ==> s[j] != ',',
        k < s.len() ==> s[k] == ',',
    ensures
        find_comma(s, from) == k,
    decreases k - from,
{
    if from == k {
    } else {
        lemma_find_comma_at(s, from + 1, k);
    }
}

proof fn lemma_find_comma_bounds(s: Seq<char>, from: int)
    requires
        0 <= from <= s.len(),
    ensures
        from <= find_comma(s, from) <= s.len(),
    decreases s.len() - from,
{
    if from == s.len() {
    } else if s[from] == ',' {
    } else {
        lemma_find_comma_bounds(s, from + 1);
    }
}

/// The comma-separated pieces of `s` from index `from` on.
pub open spec fn split_commas_from(s: Seq<char>, from: int) -> Seq<Seq<char>>
    decreases s.len() - from,
    via split_commas_from_dec
{
    if !(0 <= from <= s.len()) {
        Seq::empty()
    } else {
        let i = find_comma(s, from);
        if i >= s.len() {
            seq![s.subrange(from, s.len() as int)]
        } else {
            seq![s.subrange(from, i)] + split_commas_from(s, i + 1)
        }
    }
}

#[via_fn]
proof fn split_commas_from_dec(s: Seq<char>, from: int) {
    if 0 <= from <= s.len() {
        lemma_find_comma_bounds(s, from);
    }
}

/// Trim every piece and drop the pieces that end up empty.
pub open spec fn clean_pieces(ps: Seq<Seq<char>>) -> Seq<Seq<char>>
    decreases ps.len(),
{
    if ps.len() == 0 {
        Seq::empty()
    } else {
        let t = trim_spec(ps[0]);
        let rest = clean_pieces(ps.drop_first());
        if t.len() > 0 {
            seq![t] + rest
        } else {
            rest
        }
    }
}

/// Tags parsed from one input line: split on commas, trim each piece,
/// drop the empty pieces.
pub open spec fn split_tags_spec(s: Seq<char>) -> Seq<Seq<char>> {
    clean_pieces(split_commas_from(s, 0))
}

/// Parse one line of comma-separated tags.
pub fn split_tags(s: &str) -> (r: Vec<String>)
    ensures
        r.deep_view() == split_tags_spec(s@),
{
    let n = s.unicode_len();
    let mut out: Vec<String> = Vec::new();
    let mut from: usize = 0;
    loop
        invariant_except_break
            split_tags_spec(s@) == out.deep_view() + clean_pieces(
                split_commas_from(s@, from as int),
            ),
        invariant
            from <= n,
            n == s@.len(),
        ensures
            out.deep_view() == split_tags_spec(s@),
        decreases n - from,
    {
        let ghost pre_out = out.deep_view();
        let mut j: usize = from;
        while j < n && !(s.get_char(j) == ',')
            invariant
                from <= j <= n,
                n == s@.len(),
                forall|k: int| from <= k < j ==> s@[k] != ',',
            decreases n - j,
        {
            j = j + 1;
        }
        proof {
            lemma_find_comma_at(s@, from as int, j as int);
        }
        let piece = s.substring_char(from, j);
        let t = trim_of(piece);
        let ghost pieces = split_commas_from(s@, from as int);
        let ghost rest = pieces.drop_first();
        proof {
            assert(pieces[0] == s@.subrange(from as int, j as int));
            if j < n {
                assert(rest =~= split_commas_from(s@, j + 1));
            } else {
                assert(rest =~= Seq::<Seq<char>>::empty());
            }
        }
        if t.as_str().unicode_len() > 0 {
            out.push(t);
            proof {
                assert(out.deep_view() =~= pre_out + seq![trim_spec(piece@)]);
                assert(pre_out + clean_pieces(pieces) =~= out.deep_view() + clean_pieces(rest));
            }
        } else {
            proof {
                assert(clean_pieces(pieces) == clean_pieces(rest));
            }
        }
        proof {
            assert(split_tags_spec(s@) == out.deep_view() + clean_pieces(rest));
        }
        if j == n {
            proof {
                assert(clean_pieces(rest) =~= Seq::<Seq<char>>::empty());
                assert(out.deep_view() + clean_pieces(rest) =~= out.deep_view());
            }
            break;
        }
        from = j + 1;
    }
    out
}

/// Separator placed between two joined tags.
pub open spec fn sep_spec() -> Seq<char> {
    seq![',', ' ']
}

/// The tags joined into one field, separated by `sep_spec()`.
pub open spec fn join_tags_spec(tags: Seq<Seq<char>>) -> Seq<char>
    decreases tags.len(),
{
    if tags.len() == 0 {
        Seq::empty()
    } else if tags.len() == 1 {
        tags[0]
    } else {
        tags[0] + sep_spec() + join_tags_spec(tags.drop_first())
    }
}

proof fn lemma_join_push(tags: Seq<Seq<char>>, x: Seq<char>)
    ensures
        join_tags_spec(tags.push(x)) == if tags.len() == 0 {
            x
        } else {
            join_tags_spec(tags) + sep_spec() + x
        },
    decreases tags.len(),
{
    if tags.len() == 0 {
        assert(tags.push(x) =~= seq![x]);
        assert(join_tags_spec(seq![x]) == seq![x][0]);
    } else if tags.len() == 1 {
        assert(tags.push(x).drop_first() =~= seq![x]);
        assert(tags.push(x)[0] == tags[0]);
        assert(join_tags_spec(seq![x]) == seq![x][0]);
        assert(join_tags_spec(tags.push(x)) == tags.push(x)[0] + sep_spec() + join_tags_spec(
            tags.push(x).drop_first(),
        ));
    } else {
        assert(tags.push(x).drop_first() =~= tags.drop_first().push(x));
        assert(tags.push(x)[0] == tags[0]);
        lemma_join_push(tags.drop_first(), x);
        assert(tags[0] + sep_spec() + (join_tags_spec(tags.drop_first()) + sep_spec() + x) =~= (
        tags[0] + sep_spec() + join_tags_spec(tags.drop_first())) + sep_spec() + x);
    }
}

/// Join tags into one comma-separated field.
pub fn join_tags(tags: &Vec<String>) -> (r: String)
    ensures
        r@ == join_tags_spec(tags.deep_view()),
{
    let mut r = String::new();
    let mut i: usize = 0;
    while i < tags.len()
        invariant
            i <= tags.len(),
            r@ == join_tags_spec(tags.deep_view().take(i as int)),
        decreases tags.len() - i,
    {
        if i > 0 {
            r.append(", ");
        }
        r.append(tags[i].as_str());
        proof {
            reveal_strlit(", ");
            assert((", ")@ =~= sep_spec());
            lemma_join_push(tags.deep_view().take(i as int), tags.deep_view()[i as int]);
            assert(tags.deep_view().take(i as int).push(tags.deep_view()[i as int])
                =~= tags.deep_view().take(i + 1));
        }
        i = i + 1;
    }
    proof {
        assert(tags.deep_view().take(tags.len() as int) =~= tags.deep_view());
    }
    r
}

/// The extension of the input format.
pub open spec fn wav_suffix() -> Seq<char> {
    seq!['.', 'w', 'a', 'v']
}

/// The extension of the lossless output format.
pub open spec fn flac_suffix() -> Seq<char> {
    seq!['.', 'f', 'l', 'a', 'c']
}

/// True when the path ends in the input-format extension.
pub open spec fn has_wav_suffix(s: Seq<char>) -> bool {
    s.len() >= 4 && s.subrange(s.len() - 4, s.len() as int) == wav_suffix()
}

/// The path with every trailing input-format extension removed.
pub open spec fn strip_wav_spec(s: Seq<char>) -> Seq<char>
    decreases s.len(),
{
    if has_wav_suffix(s) {
        strip_wav_spec(s.subrange(0, s.len() - 4))
    } else {
        s
    }
}

/// Output path of the converted copy of a given input path.
pub open spec fn flac_output_spec(s: Seq<char>) -> Seq<char> {
    strip_wav_spec(s) + flac_suffix()
}

/// True when the path ends in the input-format extension.
pub fn has_wav_extension(s: &str) -> (r: bool)
    ensures
        r == has_wav_suffix(s@),
{
    let n = s.unicode_len();
    if n < 4 {
        return false;
    }
    let r = s.get_char(n - 4) == '.' && s.get_char(n - 3) == 'w' && s.get_char(n - 2) == 'a'
        && s.get_char(n - 1) == 'v';
    proof {
        let tail = s@.subrange(n - 4, n as int);
        if r {
            assert(tail =~= wav_suffix());
        } else {
            assert(tail[0] == s@[n - 4] && tail[1] == s@[n - 3] && tail[2] == s@[n - 2] && tail[3]
                == s@[n - 1]);
        }
    }
    r
}

/// Output path for the converted copy of `input`: every trailing
/// input-format extension is stripped and the lossless one appended.
pub fn flac_output_path(input: &str) -> (r: String)
    ensures
        r@ == flac_output_spec(input@),
{
    let mut cur: String = input.to_owned();
    while has_wav_extension(cur.as_str())
        invariant
            strip_wav_spec(input@) == strip_wav_spec(cur@),
        decreases cur@.len(),
    {
        let n = cur.as_str().unicode_len();
        let shorter = cur.as_str().substring_char(0, n - 4).to_owned();
        cur = shorter;
    }
    let mut out = cur;
    out.append(".flac");
    proof {
        reveal_strlit(".flac");
        assert((".flac")@ =~= flac_suffix());
    }
    out
}

/// Relies on String::push: appends the given character to the end of
/// the string.
#[verifier::external_body]
pub(crate) fn push_char(s: &mut String, c: char)
    ensures
        final(s)@ == old(s)@.push(c),
{
    s.push(c);
}

/// Relies on String::pop: removes and returns the last character, or
/// returns None when the string is empty.
#[verifier::external_body]
pub(crate) fn pop_char(s: &mut String) -> (r: Option<char>)
    ensures
        old(s)@.len() == 0 ==> final(s)@ == old(s)@ && r is None,
        old(s)@.len() > 0 ==> final(s)@ == old(s)@.drop_last() && r == Some(old(s)@.last()),
{
    s.pop()
}

} // verus!
