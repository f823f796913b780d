//! The lines of an NVIDIA driver's GPU information file that GPU detection reads.
use vstd::prelude::*;
use crate::text::{chars_of, is_white_space, is_whitespace, split_bounds, split_on, string_of_range, trim, trim_chars};

verus! {

/// Label of the line that names the GPU model.
pub const MODEL_LABEL: &'static str = "Model:";
/// Label of the line that gives the GPU memory.
pub const MEMORY_LABEL: &'static str = "Video Memory:";

/// What a line of a GPU information file says.
#[derive(Debug)]
pub enum GpuInfoLine {
    /// The GPU model: the line without its leading labels, trimmed.
    Model(String),
    /// The first word of the memory field (the amount in MiB), if the field has a word.
    VideoMemory(Option<String>),
    /// Any other line.
    Other,
}

/// Whether `s` begins with `p`.
pub open spec fn starts_with(s: Seq<char>, p: Seq<char>) -> bool {
    p.len() <= s.len() && s.take(p.len() as int) == p
}

/// `s` without any number of leading copies of `p`, as `str::trim_start_matches` gives it.
pub open spec fn strip_prefixes(s: Seq<char>, p: Seq<char>) -> Seq<char>
    decreases s.len(),
{
    if p.len() > 0 && starts_with(s, p) {
        strip_prefixes(s.skip(p.len() as int), p)
    } else {
        s
    }
}

/// The characters of `s` before its first white space.
pub open spec fn first_word(s: Seq<char>) -> Seq<char>
    decreases s.len(),
{
    if s.len() == 0 || is_white_space(s[0]) {
        Seq::empty()
    } else {
        seq![s[0]] + first_word(s.drop_first())
    }
}

/// The first white-space separated word of `s`, as `split_whitespace().next()` gives it
/// for a trimmed `s`.
pub open spec fn leading_word(s: Seq<char>) -> Option<Seq<char>> {
    if s.len() == 0 {
        None
    } else {
        Some(first_word(s))
    }
}

/// What the line `line` says: a model line starts with `Model:`, a memory line with
/// `Video Memory:`, whose field is the text between its first and second colon.
pub open spec fn info_line_meaning(line: Seq<char>) -> Option<(bool, Option<Seq<char>>)> {
    if starts_with(line, MODEL_LABEL@) {
        Some((true, Some(trim(strip_prefixes(line, MODEL_LABEL@)))))
    } else if starts_with(line, MEMORY_LABEL@) {
        Some((false, leading_word(trim(split_on(line, ':')[1]))))
    } else {
        None
    }
}

fn starts_with_at(v: &Vec<char>, at: usize, p: &Vec<char>) -> (b: bool)
    requires
        at <= v@.len(),
    ensures
        b == starts_with(v@.skip(at as int), p@),
{
    if p.len() > v.len() - at {
        return false;
    }
    let mut i: usize = 0;
    while i < p.len()
        invariant
            at + p@.len() <= v@.len() <= usize::MAX,
            i <= p@.len(),
            forall|j: int| 0 <= j < i ==> v@[at + j] == p@[j],
        decreases p@.len() - i,
    {
        if v[at + i] != p[i] {
            assert(v@.skip(at as int).take(p@.len() as int)[i as int] != p@[i as int]);
            return false;
        }
        i = i + 1;
    }
    assert(v@.skip(at as int).take(p@.len() as int) =~= p@);
    true
}

/// The model named by a line that starts with `Model:`.
fn model_of(line: &Vec<char>, label: &Vec<char>) -> (m: String)
    requires
        label@ == MODEL_LABEL@,
    ensures
        m@ == trim(strip_prefixes(line@, MODEL_LABEL@)),
{
    proof { reveal_strlit("Model:"); }
    let mut at: usize = 0;
    let n = line.len();
    assert(line@.skip(0) =~= line@);
    while starts_with_at(line, at, label)
        invariant
            at <= line@.len() == n,
            label@ == MODEL_LABEL@,
            label@.len() > 0,
            strip_prefixes(line@, MODEL_LABEL@) == strip_prefixes(line@.skip(at as int), MODEL_LABEL@),
        decreases line@.len() - at,
    {
        assert(line@.skip(at as int).len() == line@.len() - at);
        assert(at + label@.len() <= line@.len());
        assert(line@.skip(at as int).skip(label@.len() as int) =~= line@.skip(at + label@.len()));
        at = at + label.len();
    }
    assert(strip_prefixes(line@, MODEL_LABEL@) == line@.skip(at as int));
    let r = trim_chars(line, at, line.len());
    assert(line@.subrange(at as int, line@.len() as int) =~= line@.skip(at as int));
    let m = string_of_range(&r, 0, r.len());
    assert(r@.subrange(0, r@.len() as int) =~= r@);
    m
}

/// The leading word of the field of a line that starts with `Video Memory:`.
fn memory_word(line: &Vec<char>) -> (w: Option<String>)
    requires
        split_on(line@, ':').len() >= 2,
    ensures
        match w {
            Some(s) => leading_word(trim(split_on(line@, ':')[1])) == Some(s@),
            None => leading_word(trim(split_on(line@, ':')[1])) is None,
        },
{
    let (starts, ends) = split_bounds(line, ':');
    assert(starts@[1] <= ends@[1] <= line@.len());
    let field = trim_chars(line, starts[1], ends[1]);
    if field.len() == 0 {
        return None;
    }
    let mut k: usize = 0;
    assert(field@.skip(0) =~= field@);
    assert(field@.take(0) + first_word(field@) =~= first_word(field@));
    while k < field.len() && !is_whitespace(field[k])
        invariant
            k <= field@.len(),
            first_word(field@) == field@.take(k as int) + first_word(field@.skip(k as int)),
        decreases field@.len() - k,
    {
        assert(field@.skip(k as int).drop_first() =~= field@.skip(k + 1));
        assert(field@.take(k + 1) =~= field@.take(k as int) + seq![field@[k as int]]);
        assert(seq![field@[k as int]] + first_word(field@.skip(k + 1)) == first_word(field@.skip(k as int)));
        k = k + 1;
    }
    assert(first_word(field@.skip(k as int)) =~= Seq::<char>::empty());
    let w = string_of_range(&field, 0, k);
    assert(w@ =~= field@.take(k as int));
    Some(w)
}

/// What a line of a GPU information file says.
pub fn classify_info_line(line: &str) -> (r: GpuInfoLine)
    ensures
        match info_line_meaning(line@) {
            Some((true, Some(m))) => r matches GpuInfoLine::Model(s) && s@ == m,
            Some((false, w)) => r matches GpuInfoLine::VideoMemory(x) && match x {
                Some(s) => w == Some(s@),
                None => w is None,
            },
            _ => r is Other,
        },
{
    let chars = chars_of(line);
    let model_label = chars_of(MODEL_LABEL);
    let memory_label = chars_of(MEMORY_LABEL);
    assert(chars@.skip(0) =~= chars@);
    if starts_with_at(&chars, 0, &model_label) {
        GpuInfoLine::Model(model_of(&chars, &model_label))
    } else if starts_with_at(&chars, 0, &memory_label) {
        proof {
            reveal_strlit("Video Memory:");
            lemma_colon_splits(line@, MEMORY_LABEL@.len() as int);
        }
        GpuInfoLine::VideoMemory(memory_word(&chars))
    } else {
        GpuInfoLine::Other
    }
}

/// A line with a colon at position `i` splits on colons into at least two pieces.
proof fn lemma_colon_splits(s: Seq<char>, n: int)
    requires
        0 < n <= s.len(),
        s[n - 1] == ':',
    ensures
        split_on(s, ':').len() >= 2,
    decreases s.len(),
{
    crate::text::lemma_split_nonempty(s.drop_last(), ':');
    if s.len() > n {
        assert(s.drop_last()[n - 1] == ':');
        lemma_colon_splits(s.drop_last(), n);
    }
}

} // verus!
