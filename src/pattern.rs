//! The pattern grammar: `speed duration's'` steps separated by `/`.
//!
//! The grammar is checked here down to the numeric tokens. Each step keeps
//! its speed token and its duration token (with the `s` suffix taken off) as
//! text; turning those tokens into numbers is left to the caller.
use vstd::prelude::*;

verus! {

/// Why a pattern text was rejected.
#[derive(Clone, Copy, Debug, PartialEq, Eq, Structural)]
pub enum PatternError {
    /// A segment holds no space between its speed and its duration.
    MissingSpace,
    /// A duration token does not end with `s`.
    MissingSuffix,
}

/// One step of a pattern, as the tokens that the text gave for it.
#[derive(Debug)]
pub struct StepText {
    pub speed: String,
    pub seconds: String,
}

impl StepText {
    pub open spec fn view(&self) -> (Seq<char>, Seq<char>) {
        (self.speed@, self.seconds@)
    }
}

/// The pieces of `s` between occurrences of `sep`, in order; always at least one.
pub open spec fn split_on(s: Seq<char>, sep: char) -> Seq<Seq<char>>
    decreases s.len(),
{
    if s.len() == 0 {
        seq![Seq::<char>::empty()]
    } else {
        let prev = split_on(s.drop_last(), sep);
        if s.last() == sep {
            prev.push(Seq::<char>::empty())
        } else {
            prev.update(prev.len() - 1, prev.last().push(s.last()))
        }
    }
}

/// `i` is the position of the first `c` in `s`.
pub open spec fn first_at(s: Seq<char>, c: char, i: int) -> bool {
    &&& 0 <= i < s.len()
    &&& s[i] == c
    &&& forall|k: int| 0 <= k < i ==> s[k] != c
}

/// What comes before and after the first `c` in `s`, if there is one.
pub open spec fn split_once(s: Seq<char>, c: char) -> Option<(Seq<char>, Seq<char>)> {
    if exists|i: int| first_at(s, c, i) {
        let i = choose|i: int| first_at(s, c, i);
        Some((s.take(i), s.skip(i + 1)))
    } else {
        None
    }
}

/// `s` without its final `c`, if it ends with one.
pub open spec fn strip_suffix(s: Seq<char>, c: char) -> Option<Seq<char>> {
    if s.len() > 0 && s.last() == c {
        Some(s.drop_last())
    } else {
        None
    }
}

/// The tokens of one segment: the speed, and the duration without its `s`.
pub open spec fn segment_tokens(seg: Seq<char>) -> Result<(Seq<char>, Seq<char>), PatternError> {
    match split_once(seg, ' ') {
        None => Err(PatternError::MissingSpace),
        Some((speed, rest)) => match strip_suffix(rest, 's') {
            None => Err(PatternError::MissingSuffix),
            Some(secs) => Ok((speed, secs)),
        },
    }
}

/// The tokens of every segment in order, or the error of the first bad segment.
pub open spec fn all_tokens(segs: Seq<Seq<char>>) -> Result<Seq<(Seq<char>, Seq<char>)>, PatternError>
    decreases segs.len(),
{
    if segs.len() == 0 {
        Ok(Seq::empty())
    } else {
        match all_tokens(segs.drop_last()) {
            Err(e) => Err(e),
            Ok(prev) => match segment_tokens(segs.last()) {
                Err(e) => Err(e),
                Ok(t) => Ok(prev.push(t)),
            },
        }
    }
}

/// What parsing the text `s` gives.
pub open spec fn pattern_spec(s: Seq<char>) -> Result<Seq<(Seq<char>, Seq<char>)>, PatternError> {
    all_tokens(split_on(s, '/'))
}

pub open spec fn steps_view(v: Seq<StepText>) -> Seq<(Seq<char>, Seq<char>)> {
    v.map_values(|t: StepText| t@)
}

pub proof fn lemma_split_nonempty(s: Seq<char>, sep: char)
    ensures
        split_on(s, sep).len() >= 1,
    decreases s.len(),
{
    if s.len() > 0 {
        lemma_split_nonempty(s.drop_last(), sep);
    }
}

/// Splits `s` at every `sep`.
fn split_text(s: &str, sep: char) -> (r: Vec<String>)
    ensures
        r@.map_values(|t: String| t@) == split_on(s@, sep),
{
    let n = s.unicode_len();
    let mut done: Vec<String> = Vec::new();
    let mut start: usize = 0;
    let mut i: usize = 0;
    proof {
        assert(s@.take(0) =~= Seq::<char>::empty());
        assert(s@.subrange(0, 0) =~= Seq::<char>::empty());
    }
    while i < n
        invariant
            n == s@.len(),
            start <= i <= n,
            done@.map_values(|t: String| t@).push(s@.subrange(start as int, i as int)) == split_on(
                s@.take(i as int),
                sep,
            ),
        decreases n - i,
    {
        let c = s.get_char(i);
        proof {
            let t = s@.take(i + 1);
            assert(t.drop_last() =~= s@.take(i as int));
            assert(t.last() == c);
            lemma_split_nonempty(s@.take(i as int), sep);
        }
        if c == sep {
            let piece = s.substring_char(start, i);
            let ghost before = done@.map_values(|t: String| t@);
            done.push(piece.to_string());
            proof {
                assert(done@.map_values(|t: String| t@) =~= before.push(piece@));
                assert(s@.subrange(i + 1, i + 1) =~= Seq::<char>::empty());
            }
            start = i + 1;
        } else {
            proof {
                assert(s@.subrange(start as int, i + 1) =~= s@.subrange(start as int, i as int).push(c));
            }
        }
        i = i + 1;
        proof {
            assert(done@.map_values(|t: String| t@).push(s@.subrange(start as int, i as int))
                =~= split_on(s@.take(i as int), sep));
        }
    }
    let last = s.substring_char(start, n);
    let ghost before = done@.map_values(|t: String| t@);
    done.push(last.to_string());
    proof {
        assert(done@.map_values(|t: String| t@) =~= before.push(last@));
        assert(s@.take(n as int) =~= s@);
    }
    done
}

/// Splits one segment into its speed token and its duration token.
pub fn parse_step(seg: &str) -> (r: Result<StepText, PatternError>)
    ensures
        match r {
            Ok(t) => segment_tokens(seg@) == Ok::<(Seq<char>, Seq<char>), PatternError>(t@),
            Err(e) => segment_tokens(seg@) == Err::<(Seq<char>, Seq<char>), PatternError>(e),
        },
{
    let n = seg.unicode_len();
    let mut i: usize = 0;
    while i < n
        invariant
            n == seg@.len(),
            i <= n,
            forall|k: int| 0 <= k < i ==> seg@[k] != ' ',
        decreases n - i,
    {
        if seg.get_char(i) == ' ' {
            proof {
                assert(first_at(seg@, ' ', i as int));
                assert forall|j: int| first_at(seg@, ' ', j) implies j == i by {
                    if j < i {
                    } else if j > i {
                        assert(seg@[i as int] == ' ');
                    }
                }
            }
            let speed = seg.substring_char(0, i);
            let rest = seg.substring_char(i + 1, n);
            let m = rest.unicode_len();
            if m > 0 && rest.get_char(m - 1) == 's' {
                let secs = rest.substring_char(0, m - 1);
                proof {
                    assert(secs@ =~= rest@.drop_last());
                    assert(speed@ =~= seg@.take(i as int));
                    assert(rest@ =~= seg@.skip(i + 1));
                }
                return Ok(StepText { speed: speed.to_string(), seconds: secs.to_string() });
            } else {
                proof {
                    assert(rest@ =~= seg@.skip(i + 1));
                }
                return Err(PatternError::MissingSuffix);
            }
        }
        i = i + 1;
    }
    Err(PatternError::MissingSpace)
}

/// Parses a whole pattern text into its steps, in order; the first bad
/// segment rejects the whole text.
pub fn parse_pattern(text: &str) -> (r: Result<Vec<StepText>, PatternError>)
    ensures
        match r {
            Ok(v) => pattern_spec(text@) == Ok::<Seq<(Seq<char>, Seq<char>)>, PatternError>(steps_view(v@)),
            Err(e) => pattern_spec(text@) == Err::<Seq<(Seq<char>, Seq<char>)>, PatternError>(e),
        },
{
    let segs = split_text(text, '/');
    let ghost pieces = segs@.map_values(|t: String| t@);
    let mut steps: Vec<StepText> = Vec::new();
    let mut i: usize = 0;
    proof {
        assert(pieces.take(0) =~= Seq::<Seq<char>>::empty());
        assert(steps_view(steps@) =~= Seq::<(Seq<char>, Seq<char>)>::empty());
    }
    while i < segs.len()
        invariant
            pieces == segs@.map_values(|t: String| t@),
            pieces == split_on(text@, '/'),
            i <= segs.len(),
            all_tokens(pieces.take(i as int)) == Ok::<Seq<(Seq<char>, Seq<char>)>, PatternError>(steps_view(steps@)),
        decreases segs.len() - i,
    {
        let step = parse_step(segs[i].as_str());
        proof {
            assert(pieces.take(i + 1).drop_last() =~= pieces.take(i as int));
            assert(pieces.take(i + 1).last() == segs@[i as int]@);
        }
        match step {
            Ok(t) => {
                let ghost before = steps@;
                steps.push(t);
                proof {
                    assert(steps_view(steps@) =~= steps_view(before).push(t@));
                }
            },
            Err(e) => {
                proof {
                    lemma_tokens_err_prefix(pieces, i as int + 1, e);
                    assert(pieces.take(pieces.len() as int) =~= pieces);
                }
                return Err(e);
            },
        }
        i = i + 1;
    }
    proof {
        assert(pieces.take(segs.len() as int) =~= pieces);
    }
    Ok(steps)
}

/// An error among the first `k` segments is the error of the whole.
proof fn lemma_tokens_err_prefix(segs: Seq<Seq<char>>, k: int, e: PatternError)
    requires
        0 <= k <= segs.len(),
        all_tokens(segs.take(k)) == Err::<Seq<(Seq<char>, Seq<char>)>, PatternError>(e),
    ensures
        all_tokens(segs) == Err::<Seq<(Seq<char>, Seq<char>)>, PatternError>(e),
    decreases segs.len() - k,
{
    if k < segs.len() {
        assert(segs.take(k + 1).drop_last() =~= segs.take(k));
        lemma_tokens_err_prefix(segs, k + 1, e);
    } else {
        assert(segs.take(k) =~= segs);
    }
}

/// The tokens of the pattern used when none is given or the given one is bad:
/// full speed for three seconds.
pub open spec fn default_tokens() -> Seq<(Seq<char>, Seq<char>)> {
    seq![(seq!['1', '.', '0'], seq!['3'])]
}

/// The fallback pattern: one step, full speed for three seconds.
pub fn default_pattern() -> (r: Vec<StepText>)
    ensures
        steps_view(r@) == default_tokens(),
{
    proof {
        reveal_strlit("1.0");
        reveal_strlit("3");
    }
    let step = StepText { speed: String::from_str("1.0"), seconds: String::from_str("3") };
    let mut v: Vec<StepText> = Vec::new();
    v.push(step);
    proof {
        assert(step.speed@ =~= seq!['1', '.', '0']);
        assert(step.seconds@ =~= seq!['3']);
        assert(steps_view(v@) =~= default_tokens());
    }
    v
}

/// The pattern to play for an optional text: its steps where it parses,
/// else the fallback pattern.
pub fn pattern_or_default(text: Option<&str>) -> (r: Vec<StepText>)
    ensures
        steps_view(r@) == match text {
            Some(t) => match pattern_spec(t@) {
                Ok(v) => v,
                Err(_) => default_tokens(),
            },
            None => default_tokens(),
        },
{
    match text {
        Some(t) => match parse_pattern(t) {
            Ok(v) => v,
            Err(_) => default_pattern(),
        },
        None => default_pattern(),
    }
}

/// A segment that parses is its speed token, a space, its duration token and
/// an `s`, with no space in the speed token.
pub proof fn lemma_segment_shape(seg: Seq<char>)
    requires
        segment_tokens(seg) is Ok,
    ensures
        ({
            let (speed, secs) = segment_tokens(seg).unwrap();
            &&& seg == speed + seq![' '] + secs + seq!['s']
            &&& forall|k: int| 0 <= k < speed.len() ==> speed[k] != ' '
        }),
{
    let i = choose|i: int| first_at(seg, ' ', i);
    let (speed, rest) = split_once(seg, ' ').unwrap();
    let secs = strip_suffix(rest, 's').unwrap();
    assert(rest =~= secs + seq!['s']);
    assert(seg =~= speed + seq![' '] + rest);
    assert(seg =~= speed + seq![' '] + secs + seq!['s']);
}

proof fn lemma_all_tokens_ok(segs: Seq<Seq<char>>)
    requires
        all_tokens(segs) is Ok,
    ensures
        all_tokens(segs).unwrap().len() == segs.len(),
        forall|i: int| 0 <= i < segs.len() ==> segment_tokens(#[trigger] segs[i])
            == Ok::<(Seq<char>, Seq<char>), PatternError>(all_tokens(segs).unwrap()[i]),
    decreases segs.len(),
{
    if segs.len() > 0 {
        lemma_all_tokens_ok(segs.drop_last());
        assert forall|i: int| 0 <= i < segs.len() implies segment_tokens(#[trigger] segs[i])
            == Ok::<(Seq<char>, Seq<char>), PatternError>(all_tokens(segs).unwrap()[i]) by {
            if i < segs.len() - 1 {
                assert(segs[i] == segs.drop_last()[i]);
            }
        }
    }
}

/// A text that parses gives one step per `/`-separated segment, in order, and
/// each segment is exactly its step's speed token, a space, its duration token
/// and an `s`.
pub proof fn lemma_parsed_steps_match_segments(text: Seq<char>)
    requires
        pattern_spec(text) is Ok,
    ensures
        ({
            let segs = split_on(text, '/');
            let steps = pattern_spec(text).unwrap();
            &&& steps.len() == segs.len()
            &&& forall|i: int| 0 <= i < segs.len() ==> #[trigger] segs[i] == steps[i].0 + seq![' ']
                + steps[i].1 + seq!['s']
        }),
{
    let segs = split_on(text, '/');
    lemma_all_tokens_ok(segs);
    assert forall|i: int| 0 <= i < segs.len() implies #[trigger] segs[i] == pattern_spec(text).unwrap()[i].0
        + seq![' '] + pattern_spec(text).unwrap()[i].1 + seq!['s'] by {
        lemma_segment_shape(segs[i]);
    }
}

proof fn lemma_bad_segment_in(segs: Seq<Seq<char>>, i: int)
    requires
        0 <= i < segs.len(),
        segment_tokens(segs[i]) is Err,
    ensures
        all_tokens(segs) is Err,
    decreases segs.len(),
{
    if i < segs.len() - 1 {
        assert(segs.drop_last()[i] == segs[i]);
        lemma_bad_segment_in(segs.drop_last(), i);
    }
}

/// A text with a segment that has no space, or whose duration lacks the `s`
/// suffix, is rejected as a whole, and the fallback pattern is played instead.
pub proof fn lemma_bad_segment_rejected(text: Seq<char>, i: int)
    requires
        0 <= i < split_on(text, '/').len(),
        split_once(split_on(text, '/')[i], ' ') is None || strip_suffix(
            split_once(split_on(text, '/')[i], ' ').unwrap().1,
            's',
        ) is None,
    ensures
        pattern_spec(text) is Err,
        (match pattern_spec(text) {
            Ok(v) => v,
            Err(_) => default_tokens(),
        }) == default_tokens(),
{
    lemma_bad_segment_in(split_on(text, '/'), i);
}

/// Parsing is a function of the text alone: equal texts give equal results.
pub proof fn lemma_parse_deterministic(a: Seq<char>, b: Seq<char>)
    requires
        a == b,
    ensures
        pattern_spec(a) == pattern_spec(b),
{
}

} // verus!
