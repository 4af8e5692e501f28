//! The template engine: a single-pass scanner that recognizes `{{...}}`
//! placeholders in free text and a renderer that drives it over the whole
//! input.
//!
//! Grammar, longest alternative first at each position:
//!
//! ```text
//! placeholder      := "{{" placeholder-body "}}"
//! placeholder-body := "scheme-author" | "scheme-name" | color-ref
//! color-ref        := "base" hex-digit hex-digit "-hex" color-adjust?
//! color-adjust     := (";+" | ";-") decimal-digit+
//! ```
//!
//! A color reference must name an index 0..=15, and an adjustment percentage
//! must be 0..=255; violating either is a hard error. Content between `{{`
//! and the nearest `}}` that matches no alternative is a hard error too. A
//! `{{` with no `}}` anywhere after it is no placeholder: the scanner then
//! consumes one character verbatim, as it does wherever no `{{` begins.

use vstd::prelude::*;
use vstd::string::{StrSliceExecFns, StringExecFns};
use crate::color::{darken_spec, format_spec, lighten_spec};
use crate::error::{ErrSpec, RenderError};
use crate::hex::{dec_digit_val, dec_val, hex_digit_val, hex_val, is_dec_digit, is_hex_digit};
use crate::scheme::ColorScheme;

verus! {

/// `pat` occurs in `s` starting at position `i`.
pub open spec fn starts_with_at(s: Seq<char>, i: int, pat: Seq<char>) -> bool {
    0 <= i && i + pat.len() <= s.len() && s.subrange(i, i + pat.len() as int) == pat
}

/// The `{{scheme-author}}` placeholder occurs at `i`.
pub open spec fn author_at(s: Seq<char>, i: int) -> bool {
    starts_with_at(s, i, "{{scheme-author}}"@)
}

/// The `{{scheme-name}}` placeholder occurs at `i`.
pub open spec fn name_at(s: Seq<char>, i: int) -> bool {
    starts_with_at(s, i, "{{scheme-name}}"@)
}

/// The head of a color reference occurs at `i`: `{{base`, two hexadecimal
/// digits, then `-hex`.
pub open spec fn color_head_at(s: Seq<char>, i: int) -> bool {
    &&& starts_with_at(s, i, "{{base"@)
    &&& i + 8 <= s.len()
    &&& is_hex_digit(s[i + 6])
    &&& is_hex_digit(s[i + 7])
    &&& starts_with_at(s, i + 8, "-hex"@)
}

/// The table index the color reference at `i` names, 0..=255.
pub open spec fn color_index(s: Seq<char>, i: int) -> int {
    16 * hex_val(s[i + 6]) + hex_val(s[i + 7])
}

/// A closing `}}` occurs at `k`.
pub open spec fn close_at(s: Seq<char>, k: int) -> bool {
    starts_with_at(s, k, "}}"@)
}

/// Some closing `}}` occurs at or after `k`.
pub open spec fn has_close_from(s: Seq<char>, k: int) -> bool
    decreases s.len() - k,
{
    if k + 2 > s.len() {
        false
    } else if close_at(s, k) {
        true
    } else {
        has_close_from(s, k + 1)
    }
}

/// The position of the first closing `}}` at or after `k` (meaningful only
/// when one exists).
pub open spec fn first_close_from(s: Seq<char>, k: int) -> int
    decreases s.len() - k,
{
    if k + 2 > s.len() {
        k
    } else if close_at(s, k) {
        k
    } else {
        first_close_from(s, k + 1)
    }
}

/// A brightness adjustment marker `;+` or `;-` occurs at `j`.
pub open spec fn adjust_at(s: Seq<char>, j: int) -> bool {
    0 <= j && j + 2 <= s.len() && s[j] == ';' && (s[j + 1] == '+' || s[j + 1] == '-')
}

/// The position just past the run of decimal digits starting at `k`.
pub open spec fn digit_run_end(s: Seq<char>, k: int) -> int
    decreases s.len() - k,
{
    if k < 0 || k >= s.len() {
        k
    } else if is_dec_digit(s[k]) {
        digit_run_end(s, k + 1)
    } else {
        k
    }
}

/// The number the decimal digits `s[k..e)` denote.
pub open spec fn digits_val(s: Seq<char>, k: int, e: int) -> int
    decreases e - k,
{
    if e <= k {
        0
    } else {
        digits_val(s, k, e - 1) * 10 + dec_val(s[e - 1])
    }
}

/// A full color-reference placeholder without adjustment occurs at `i`: its
/// head closed immediately by `}}`.
pub open spec fn color_plain_at(s: Seq<char>, i: int) -> bool {
    color_head_at(s, i) && close_at(s, i + 12)
}

/// A full color-reference placeholder with adjustment occurs at `i`: its
/// head, a marker, a digit run, then `}}` right after the digits.
pub open spec fn color_adjust_at(s: Seq<char>, i: int) -> bool {
    color_head_at(s, i) && adjust_at(s, i + 12) && close_at(s, digit_run_end(s, i + 14))
}

/// One scanner step: either the text one token contributes together with the
/// position right after the token, or the error the placeholder at `i`
/// raises.
pub enum StepSpec {
    Emit { text: Seq<char>, next: int },
    Fail { err: ErrSpec },
}

impl StepSpec {
    pub open spec fn is_emit(&self) -> bool {
        self matches StepSpec::Emit { .. }
    }

    pub open spec fn text(&self) -> Seq<char> {
        match self {
            StepSpec::Emit { text, .. } => *text,
            StepSpec::Fail { .. } => Seq::empty(),
        }
    }

    pub open spec fn next(&self) -> int {
        match self {
            StepSpec::Emit { next, .. } => *next,
            StepSpec::Fail { .. } => 0,
        }
    }

    pub open spec fn err(&self) -> ErrSpec {
        match self {
            StepSpec::Emit { .. } => ErrSpec::MalformedPlaceholder { fragment: Seq::empty() },
            StepSpec::Fail { err } => *err,
        }
    }
}

/// What the scanner does at position `i` of `s`: the alternatives in order,
/// then the errors a closed-but-unresolvable placeholder raises, then the
/// one-character fallback.
pub open spec fn step_at(scheme: ColorScheme, s: Seq<char>, i: int) -> StepSpec {
    if author_at(s, i) {
        StepSpec::Emit { text: scheme.author@, next: i + 17 }
    } else if name_at(s, i) {
        StepSpec::Emit { text: scheme.name@, next: i + 15 }
    } else if color_plain_at(s, i) {
        if color_index(s, i) < 16 {
            StepSpec::Emit { text: format_spec(scheme.colors@[color_index(s, i)]), next: i + 14 }
        } else {
            StepSpec::Fail { err: ErrSpec::UnknownColorIndex { index: color_index(s, i) } }
        }
    } else if color_adjust_at(s, i) {
        let e = digit_run_end(s, i + 14);
        if color_index(s, i) >= 16 {
            StepSpec::Fail { err: ErrSpec::UnknownColorIndex { index: color_index(s, i) } }
        } else if e == i + 14 || digits_val(s, i + 14, e) > 255 {
            StepSpec::Fail { err: ErrSpec::MalformedPercent { fragment: s.subrange(i + 14, e) } }
        } else {
            let base = scheme.colors@[color_index(s, i)];
            let p = digits_val(s, i + 14, e);
            let adjusted = if s[i + 13] == '+' {
                lighten_spec(base, p)
            } else {
                darken_spec(base, p)
            };
            StepSpec::Emit { text: format_spec(adjusted), next: e + 2 }
        }
    } else if starts_with_at(s, i, "{{"@) && has_close_from(s, i + 2) {
        StepSpec::Fail {
            err: ErrSpec::MalformedPlaceholder {
                fragment: s.subrange(i + 2, first_close_from(s, i + 2)),
            },
        }
    } else {
        StepSpec::Emit { text: seq![s[i]], next: i + 1 }
    }
}

/// The fully rendered form of `s[i..]`, or the first error met. The bound on
/// the recursion position only serves termination: a step never stands still
/// and never jumps past the end.
pub open spec fn render_from(scheme: ColorScheme, s: Seq<char>, i: int) -> Result<Seq<char>, ErrSpec>
    decreases s.len() - i,
{
    if i < 0 || i >= s.len() {
        Ok(Seq::empty())
    } else {
        let st = step_at(scheme, s, i);
        if st.is_emit() {
            let bounded = if st.next() <= i {
                i + 1
            } else if st.next() > s.len() {
                s.len() as int
            } else {
                st.next()
            };
            match render_from(scheme, s, bounded) {
                Ok(rest) => Ok(st.text() + rest),
                Err(err) => Err(err),
            }
        } else {
            Err(st.err())
        }
    }
}

/// The rendered form of the whole template, or the first error.
pub open spec fn render_spec(scheme: ColorScheme, s: Seq<char>) -> Result<Seq<char>, ErrSpec> {
    render_from(scheme, s, 0)
}

/// Whether `pat` occurs in `s` at position `i`, by character comparison.
fn match_at(s: &str, i: usize, pat: &str) -> (r: bool)
    requires
        i <= s@.len(),
    ensures
        r == starts_with_at(s@, i as int, pat@),
{
    let n = s.unicode_len();
    let m = pat.unicode_len();
    if m > n - i {
        return false;
    }
    let mut j: usize = 0;
    while j < m
        invariant
            i + m <= n,
            n == s@.len(),
            m == pat@.len(),
            j <= m,
            forall|k: int| 0 <= k < j ==> s@[i + k] == pat@[k],
        decreases m - j,
    {
        if s.get_char(i + j) != pat.get_char(j) {
            proof {
                if starts_with_at(s@, i as int, pat@) {
                    assert(s@.subrange(i as int, i + pat@.len() as int)[j as int] == pat@[j as int]);
                }
            }
            return false;
        }
        j += 1;
    }
    proof {
        assert(s@.subrange(i as int, i + pat@.len() as int) =~= pat@);
    }
    true
}

/// Whether a decimal digit stands at position `k` of `s`.
fn dec_digit_at(s: &str, k: usize) -> (r: bool)
    requires
        k < s@.len(),
    ensures
        r == is_dec_digit(s@[k as int]),
{
    dec_digit_val(s.get_char(k)) < 10
}

/// The position of the first `}}` at or after `k0`, if any.
fn find_close(s: &str, k0: usize) -> (r: Option<usize>)
    requires
        k0 <= s@.len(),
    ensures
        match r {
            Some(m) => has_close_from(s@, k0 as int) && m as int == first_close_from(
                s@,
                k0 as int,
            ) && close_at(s@, m as int) && k0 <= m,
            None => !has_close_from(s@, k0 as int),
        },
{
    let n = s.unicode_len();
    let mut m = k0;
    while m < n && m + 1 < n
        invariant
            k0 <= m <= n,
            n == s@.len(),
            has_close_from(s@, k0 as int) == has_close_from(s@, m as int),
            first_close_from(s@, k0 as int) == first_close_from(s@, m as int),
        decreases n - m,
    {
        if s.get_char(m) == '}' && s.get_char(m + 1) == '}' {
            proof {
                reveal_strlit("}}");
                assert(s@.subrange(m as int, m + 2) =~= "}}"@);
            }
            return Some(m);
        }
        proof {
            reveal_strlit("}}");
            if close_at(s@, m as int) {
                assert(s@.subrange(m as int, m + 2)[0] == s@[m as int]);
                assert(s@.subrange(m as int, m + 2)[1] == s@[m + 1]);
            }
        }
        m += 1;
    }
    None
}

/// One scanner step at position `i`: appends the token's text to `out` and
/// returns the position after the token, or returns the placeholder's error
/// and leaves `out` unchanged.
fn scan_step(scheme: &ColorScheme, s: &str, i: usize, out: &mut String) -> (r: Result<
    usize,
    RenderError,
>)
    requires
        scheme.wf(),
        i < s@.len(),
    ensures
        match r {
            Ok(next) => step_at(*scheme, s@, i as int).is_emit() && next as int == step_at(
                *scheme,
                s@,
                i as int,
            ).next() && final(out)@ == old(out)@ + step_at(*scheme, s@, i as int).text() && i < next
                <= s@.len(),
            Err(e) => !step_at(*scheme, s@, i as int).is_emit() && e@ == step_at(
                *scheme,
                s@,
                i as int,
            ).err() && final(out)@ == old(out)@,
        },
{
    proof {
        reveal_strlit("{{scheme-author}}");
        reveal_strlit("{{scheme-name}}");
        reveal_strlit("{{base");
        reveal_strlit("-hex");
        reveal_strlit("}}");
        reveal_strlit("{{");
    }
    let n = s.unicode_len();
    if match_at(s, i, "{{scheme-author}}") {
        out.append(scheme.author.as_str());
        return Ok(i + 17);
    }
    if match_at(s, i, "{{scheme-name}}") {
        out.append(scheme.name.as_str());
        return Ok(i + 15);
    }
    let head = match_at(s, i, "{{base") && n - i >= 12 && hex_digit_val(s.get_char(i + 6)) < 16
        && hex_digit_val(s.get_char(i + 7)) < 16 && match_at(s, i + 8, "-hex");
    assert(head == color_head_at(s@, i as int));
    if head {
        let d0 = hex_digit_val(s.get_char(i + 6));
        let d1 = hex_digit_val(s.get_char(i + 7));
        let idx: u8 = 16 * d0 + d1;
        if match_at(s, i + 12, "}}") {
            if idx < 16 {
                let base = scheme.colors[idx as usize];
                let hexstr = base.format();
                out.append(hexstr.as_str());
                return Ok(i + 14);
            } else {
                return Err(RenderError::UnknownColorIndex { index: idx });
            }
        }
        if n - i >= 14 {
            let c12 = s.get_char(i + 12);
            let c13 = s.get_char(i + 13);
            if c12 == ';' && (c13 == '+' || c13 == '-') {
                let mut k = i + 14;
                let mut val: u32 = 0;
                while k < n && dec_digit_at(s, k)
                    invariant
                        i + 14 <= k <= n,
                        n == s@.len(),
                        forall|m: int| i + 14 <= m < k ==> is_dec_digit(#[trigger] s@[m]),
                        digits_val(s@, i + 14, k as int) <= 255 ==> val == digits_val(
                            s@,
                            i + 14,
                            k as int,
                        ),
                        digits_val(s@, i + 14, k as int) > 255 ==> val > 255,
                        val <= 2559,
                    decreases n - k,
                {
                    let d = dec_digit_val(s.get_char(k));
                    proof {
                        assert(digits_val(s@, i + 14, k + 1) == digits_val(s@, i + 14, k as int)
                            * 10 + dec_val(s@[k as int]));
                    }
                    val = if val > 255 {
                        256
                    } else {
                        val * 10 + d as u32
                    };
                    k += 1;
                }
                proof {
                    lemma_digit_run_end_is(s@, i + 14, k as int);
                }
                if match_at(s, k, "}}") {
                    if idx >= 16 {
                        return Err(RenderError::UnknownColorIndex { index: idx });
                    }
                    if k == i + 14 || val > 255 {
                        let fragment = s.substring_char(i + 14, k).to_owned();
                        return Err(RenderError::MalformedPercent { fragment });
                    }
                    let base = scheme.colors[idx as usize];
                    let adjusted = if c13 == '+' {
                        base.lighten(val as u8)
                    } else {
                        base.darken(val as u8)
                    };
                    let hexstr = adjusted.format();
                    out.append(hexstr.as_str());
                    return Ok(k + 2);
                }
                assert(!color_adjust_at(s@, i as int));
            } else {
                assert(!color_adjust_at(s@, i as int));
            }
        } else {
            assert(!color_adjust_at(s@, i as int));
        }
    }
    if match_at(s, i, "{{") {
        match find_close(s, i + 2) {
            Some(m) => {
                let fragment = s.substring_char(i + 2, m).to_owned();
                return Err(RenderError::MalformedPlaceholder { fragment });
            },
            None => {},
        }
    }
    let piece = s.substring_char(i, i + 1);
    out.append(piece);
    proof {
        assert(s@.subrange(i as int, i as int + 1) =~= seq![s@[i as int]]);
    }
    Ok(i + 1)
}

/// Renders a whole template against a scheme: every recognized placeholder
/// is substituted, every other character passes through unchanged, and the
/// first failure aborts the render with no partial output.
pub fn apply_colors(scheme: &ColorScheme, input: &str) -> (r: Result<String, RenderError>)
    requires
        scheme.wf(),
    ensures
        (match r {
            Ok(out) => render_spec(*scheme, input@) == Ok::<Seq<char>, ErrSpec>(out@),
            Err(e) => render_spec(*scheme, input@) == Err::<Seq<char>, ErrSpec>(e@),
        }),
{
    let n = input.unicode_len();
    let mut out = String::new();
    let mut i: usize = 0;
    proof {
        if let Ok(rest) = render_from(*scheme, input@, 0) {
            assert(Seq::<char>::empty() + rest =~= rest);
        }
    }
    while i < n
        invariant
            i <= n,
            n == input@.len(),
            scheme.wf(),
            (match render_from(*scheme, input@, i as int) {
                Ok(rest) => render_spec(*scheme, input@) == Ok::<Seq<char>, ErrSpec>(out@ + rest),
                Err(err) => render_spec(*scheme, input@) == Err::<Seq<char>, ErrSpec>(err),
            }),
        decreases n - i,
    {
        let ghost prev_out = out@;
        match scan_step(scheme, input, i, &mut out) {
            Ok(next) => {
                proof {
                    let st = step_at(*scheme, input@, i as int);
                    match render_from(*scheme, input@, next as int) {
                        Ok(rest) => {
                            assert(render_from(*scheme, input@, i as int) == Ok::<
                                Seq<char>,
                                ErrSpec,
                            >(st.text() + rest));
                            assert(prev_out + (st.text() + rest) =~= (prev_out + st.text())
                                + rest);
                        },
                        Err(err) => {
                            assert(render_from(*scheme, input@, i as int) == Err::<
                                Seq<char>,
                                ErrSpec,
                            >(err));
                        },
                    }
                }
                i = next;
            },
            Err(e) => {
                return Err(e);
            },
        }
    }
    proof {
        assert(render_from(*scheme, input@, i as int) == Ok::<Seq<char>, ErrSpec>(
            Seq::<char>::empty(),
        ));
        assert(out@ + Seq::<char>::empty() =~= out@);
    }
    Ok(out)
}

/// The digits of `s[k..e)` and what stands after them pin down
/// `digit_run_end`.
proof fn lemma_digit_run_end_is(s: Seq<char>, k: int, e: int)
    requires
        0 <= k <= e <= s.len(),
        forall|m: int| k <= m < e ==> is_dec_digit(#[trigger] s[m]),
        e == s.len() || !is_dec_digit(s[e]),
    ensures
        digit_run_end(s, k) == e,
    decreases e - k,
{
    if k < e {
        assert(is_dec_digit(s[k]));
        lemma_digit_run_end_is(s, k + 1, e);
    }
}

/// A pattern that itself begins with `{{` passes that beginning on: where it
/// occurs, `{{` occurs.
proof fn lemma_open_prefix(s: Seq<char>, j: int, pat: Seq<char>)
    requires
        starts_with_at(s, j, pat),
        pat.len() >= 2,
        pat[0] == '{',
        pat[1] == '{',
    ensures
        starts_with_at(s, j, "{{"@),
{
    reveal_strlit("{{");
    assert(s.subrange(j, j + pat.len() as int)[0] == s[j]);
    assert(s.subrange(j, j + pat.len() as int)[1] == s[j + 1]);
    assert(s.subrange(j, j + 2) =~= "{{"@);
}

/// At a position where no `{{` begins, the scanner passes one character
/// through.
proof fn lemma_step_passthrough(scheme: ColorScheme, s: Seq<char>, j: int)
    requires
        0 <= j < s.len(),
        !starts_with_at(s, j, "{{"@),
    ensures
        step_at(scheme, s, j) == (StepSpec::Emit { text: seq![s[j]], next: j + 1 }),
{
    reveal_strlit("{{scheme-author}}");
    reveal_strlit("{{scheme-name}}");
    reveal_strlit("{{base");
    if author_at(s, j) {
        lemma_open_prefix(s, j, "{{scheme-author}}"@);
    }
    if name_at(s, j) {
        lemma_open_prefix(s, j, "{{scheme-name}}"@);
    }
    if color_head_at(s, j) {
        lemma_open_prefix(s, j, "{{base"@);
    }
}

/// A template in which `{{` never occurs renders to itself, unchanged.
pub proof fn lemma_literal_roundtrip(scheme: ColorScheme, s: Seq<char>)
    requires
        forall|j: int| 0 <= j < s.len() ==> !starts_with_at(s, j, "{{"@),
    ensures
        render_spec(scheme, s) == Ok::<Seq<char>, ErrSpec>(s),
{
    assert forall|j: int| 0 <= j < s.len() implies step_at(scheme, s, j) == (StepSpec::Emit {
        text: seq![s[j]],
        next: j + 1,
    }) by {
        lemma_step_passthrough(scheme, s, j);
    }
    lemma_identity_from(scheme, s, 0);
    assert(s.subrange(0, s.len() as int) =~= s);
}

/// Rendering a template whose every step passes one character through yields
/// the remaining text unchanged.
proof fn lemma_identity_from(scheme: ColorScheme, s: Seq<char>, i: int)
    requires
        0 <= i <= s.len(),
        forall|j: int| 0 <= j < s.len() ==> step_at(scheme, s, j) == (StepSpec::Emit {
            text: seq![s[j]],
            next: j + 1,
        }),
    ensures
        render_from(scheme, s, i) == Ok::<Seq<char>, ErrSpec>(s.subrange(i, s.len() as int)),
    decreases s.len() - i,
{
    if i >= s.len() {
        assert(s.subrange(i, s.len() as int) =~= Seq::<char>::empty());
    } else {
        lemma_identity_from(scheme, s, i + 1);
        assert(seq![s[i]] + s.subrange(i + 1, s.len() as int) =~= s.subrange(i, s.len() as int));
    }
}

/// Where `}}` occurs nowhere in the template, nothing closes from any
/// position on.
proof fn lemma_no_close_from(s: Seq<char>, k: int)
    requires
        forall|m: int| !close_at(s, m),
    ensures
        !has_close_from(s, k),
    decreases s.len() - k,
{
    if k + 2 <= s.len() {
        lemma_no_close_from(s, k + 1);
    }
}

/// At any position of a template in which `}}` never occurs, the scanner
/// passes one character through: every alternative needs a close.
proof fn lemma_step_no_close(scheme: ColorScheme, s: Seq<char>, j: int)
    requires
        0 <= j < s.len(),
        forall|m: int| !close_at(s, m),
    ensures
        step_at(scheme, s, j) == (StepSpec::Emit { text: seq![s[j]], next: j + 1 }),
{
    reveal_strlit("{{scheme-author}}");
    reveal_strlit("{{scheme-name}}");
    reveal_strlit("}}");
    if author_at(s, j) {
        assert(s.subrange(j, j + 17)[15] == s[j + 15]);
        assert(s.subrange(j, j + 17)[16] == s[j + 16]);
        assert(s.subrange(j + 15, j + 17) =~= "}}"@);
        assert(close_at(s, j + 15));
    }
    if name_at(s, j) {
        assert(s.subrange(j, j + 15)[13] == s[j + 13]);
        assert(s.subrange(j, j + 15)[14] == s[j + 14]);
        assert(s.subrange(j + 13, j + 15) =~= "}}"@);
        assert(close_at(s, j + 13));
    }
    assert(!color_plain_at(s, j));
    assert(!color_adjust_at(s, j));
    lemma_no_close_from(s, j + 2);
}

/// A template in which `}}` never occurs renders to itself: no placeholder
/// can close, so every character, a `{{` included, passes through.
pub proof fn lemma_unterminated_roundtrip(scheme: ColorScheme, s: Seq<char>)
    requires
        forall|m: int| !close_at(s, m),
    ensures
        render_spec(scheme, s) == Ok::<Seq<char>, ErrSpec>(s),
{
    assert forall|j: int| 0 <= j < s.len() implies step_at(scheme, s, j) == (StepSpec::Emit {
        text: seq![s[j]],
        next: j + 1,
    }) by {
        lemma_step_no_close(scheme, s, j);
    }
    lemma_identity_from(scheme, s, 0);
    assert(s.subrange(0, s.len() as int) =~= s);
}

/// The template holding exactly `{{scheme-author}}` renders to the scheme's
/// author string verbatim, whatever characters that string holds.
pub proof fn lemma_author_verbatim(scheme: ColorScheme)
    ensures
        render_spec(scheme, "{{scheme-author}}"@) == Ok::<Seq<char>, ErrSpec>(scheme.author@),
{
    reveal_strlit("{{scheme-author}}");
    let s = "{{scheme-author}}"@;
    assert(s.subrange(0, 17) =~= s);
    assert(author_at(s, 0));
    assert(render_from(scheme, s, 17) == Ok::<Seq<char>, ErrSpec>(Seq::<char>::empty()));
    assert(scheme.author@ + Seq::<char>::empty() =~= scheme.author@);
}

/// The template holding exactly `{{scheme-name}}` renders to the scheme's
/// name string verbatim, whatever characters that string holds.
pub proof fn lemma_name_verbatim(scheme: ColorScheme)
    ensures
        render_spec(scheme, "{{scheme-name}}"@) == Ok::<Seq<char>, ErrSpec>(scheme.name@),
{
    reveal_strlit("{{scheme-name}}");
    reveal_strlit("{{scheme-author}}");
    let s = "{{scheme-name}}"@;
    assert(s.subrange(0, 15) =~= s);
    assert(name_at(s, 0));
    assert(render_from(scheme, s, 15) == Ok::<Seq<char>, ErrSpec>(Seq::<char>::empty()));
    assert(scheme.name@ + Seq::<char>::empty() =~= scheme.name@);
}

} // verus!
