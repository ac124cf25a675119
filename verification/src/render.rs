//! Redaction and formatting: turns one decoded instruction into one output
//! text line under the display policy. Purely a per-instruction mapping;
//! no state is retained between calls.
//!
//! Numeric literals in operand text are written `0x` followed by
//! hexadecimal digits. A literal inside square brackets is a memory
//! displacement (or indirect target); one outside is an immediate. Hiding
//! replaces the literal with a fixed placeholder token while keeping the
//! addressing-mode shape (register names, brackets) intact.

use vstd::prelude::*;

use crate::decode::Instruction;
use crate::offsets::{hex_digit_val, CHAR_LOWER_X, CHAR_ZERO};

verus! {

pub const LEFT_BRACKET: u8 = 91;
pub const RIGHT_BRACKET: u8 = 93;
pub const TAB: u8 = 9;

/// Display policy for an invocation: leading address column, memory
/// displacements shown or hidden, immediates shown or hidden. Immutable
/// per invocation.
#[derive(Clone, Copy)]
pub struct DisasmOpts {
    pub print_adresses: bool,
    pub show_mem_disp: bool,
    pub show_imms: bool,
}

pub open spec fn is_hex_digit(c: u8) -> bool {
    hex_digit_val(c) is Some
}

/// A numeric literal starts here: `0x` followed by a hexadecimal digit.
pub open spec fn lit_start(s: Seq<u8>) -> bool {
    s.len() >= 3 && s[0] == CHAR_ZERO && s[1] == CHAR_LOWER_X && is_hex_digit(s[2])
}

/// Length of the leading run of hexadecimal digits.
pub open spec fn hex_run(s: Seq<u8>) -> int
    decreases s.len(),
{
    if s.len() == 0 || !is_hex_digit(s[0]) {
        0
    } else {
        1 + hex_run(s.skip(1))
    }
}

/// Length of the literal starting here: the `0x` and its digits.
pub open spec fn lit_len(s: Seq<u8>) -> int {
    2 + hex_run(s.skip(2))
}

/// How a character changes the bracket depth.
pub open spec fn depth_change(c: u8) -> int {
    if c == LEFT_BRACKET {
        1
    } else if c == RIGHT_BRACKET {
        -1
    } else {
        0
    }
}

/// The placeholder standing for a hidden memory displacement.
pub open spec fn disp_token() -> Seq<u8> {
    seq![60u8, 100u8, 105u8, 115u8, 112u8, 62u8]
}

/// The placeholder standing for a hidden immediate value.
pub open spec fn imm_token() -> Seq<u8> {
    seq![60u8, 105u8, 109u8, 109u8, 62u8]
}

pub proof fn lemma_hex_run_le(s: Seq<u8>)
    ensures
        0 <= hex_run(s) <= s.len(),
    decreases s.len(),
{
    if s.len() > 0 && is_hex_digit(s[0]) {
        lemma_hex_run_le(s.skip(1));
    }
}

/// The operand text under the redaction policy, scanned left to right at
/// the given bracket depth: a literal at positive depth is a displacement,
/// one at depth zero or below an immediate; a hidden literal becomes its
/// placeholder token; all other characters are kept.
pub open spec fn redact_from(s: Seq<u8>, depth: int, show_mem: bool, show_imm: bool) -> Seq<u8>
    decreases s.len(),
    via redact_from_decreases
{
    if s.len() == 0 {
        Seq::<u8>::empty()
    } else if lit_start(s) {
        let l = lit_len(s);
        let chunk = if depth > 0 {
            if show_mem {
                s.take(l)
            } else {
                disp_token()
            }
        } else {
            if show_imm {
                s.take(l)
            } else {
                imm_token()
            }
        };
        chunk + redact_from(s.skip(l), depth, show_mem, show_imm)
    } else {
        seq![s[0]] + redact_from(s.skip(1), depth + depth_change(s[0]), show_mem, show_imm)
    }
}

#[via_fn]
proof fn redact_from_decreases(s: Seq<u8>, depth: int, show_mem: bool, show_imm: bool) {
    if s.len() > 0 && lit_start(s) {
        lemma_hex_run_le(s.skip(2));
    }
}

/// The leading hexadecimal-digit run is `n` exactly when the first `n`
/// characters are hexadecimal digits and the next one, if any, is not.
proof fn lemma_hex_run_value(s: Seq<u8>, n: int)
    requires
        0 <= n <= s.len(),
        forall|k: int| 0 <= k < n ==> is_hex_digit(#[trigger] s[k]),
        n < s.len() ==> !is_hex_digit(s[n]),
    ensures
        hex_run(s) == n,
    decreases n,
{
    if n > 0 {
        assert(is_hex_digit(s[0]));
        lemma_hex_run_value(s.skip(1), n - 1);
    }
}

/// Applies the redaction policy to one operand text.
pub fn redact(text: &[u8], show_mem: bool, show_imm: bool) -> (r: Vec<u8>)
    ensures
        r@ == redact_from(text@, 0, show_mem, show_imm),
{
    let mut out: Vec<u8> = Vec::new();
    let mut i: usize = 0;
    let mut depth: i128 = 0;
    proof {
        assert(text@.skip(0) =~= text@);
    }
    while i < text.len()
        invariant
            0 <= i <= text@.len(),
            -(i as int) <= depth <= i as int,
            redact_from(text@, 0, show_mem, show_imm) == out@ + redact_from(
                text@.skip(i as int),
                depth as int,
                show_mem,
                show_imm,
            ),
        decreases text@.len() - i,
    {
        let ghost rem = text@.skip(i as int);
        proof {
            assert(rem[0] == text@[i as int]);
        }
        let is_lit = text[i] == CHAR_ZERO && text.len() - i > 2 && text[i + 1] == CHAR_LOWER_X
            && hex_digit_exec(text[i + 2]);
        if is_lit {
            proof {
                assert(rem.len() >= 3);
                assert(rem[1] == text@[i + 1]);
                assert(rem[2] == text@[i + 2]);
                assert(lit_start(rem));
            }
            let mut j: usize = i + 2;
            while j < text.len() && hex_digit_exec(text[j])
                invariant
                    i + 2 <= j <= text@.len(),
                    forall|k: int| i + 2 <= k < j ==> is_hex_digit(#[trigger] text@[k]),
                decreases text@.len() - j,
            {
                j = j + 1;
            }
            proof {
                let digits = text@.skip(i + 2);
                assert forall|k: int| 0 <= k < j - (i + 2) implies is_hex_digit(
                    #[trigger] digits[k],
                ) by {
                    assert(digits[k] == text@[k + i + 2]);
                }
                if j < text@.len() {
                    assert(digits[j - (i + 2)] == text@[j as int]);
                }
                lemma_hex_run_value(digits, j - (i + 2));
                assert(rem.skip(2) =~= digits);
                assert(lit_len(rem) == j - i);
            }
            let ghost prev_out = out@;
            if (depth > 0 && show_mem) || (depth <= 0 && show_imm) {
                let mut k: usize = i;
                while k < j
                    invariant
                        i <= k <= j <= text@.len(),
                        out@ == prev_out + text@.subrange(i as int, k as int),
                    decreases j - k,
                {
                    proof {
                        assert(text@.subrange(i as int, k + 1) =~= text@.subrange(
                            i as int,
                            k as int,
                        ).push(text@[k as int]));
                    }
                    out.push(text[k]);
                    k = k + 1;
                }
                proof {
                    assert(rem.take(lit_len(rem)) =~= text@.subrange(i as int, j as int));
                }
            } else if depth > 0 {
                out.push(60);
                out.push(100);
                out.push(105);
                out.push(115);
                out.push(112);
                out.push(62);
                proof {
                    assert(out@ =~= prev_out + disp_token());
                }
            } else {
                out.push(60);
                out.push(105);
                out.push(109);
                out.push(109);
                out.push(62);
                proof {
                    assert(out@ =~= prev_out + imm_token());
                }
            }
            proof {
                assert(rem.skip(lit_len(rem)) =~= text@.skip(j as int));
                assert(redact_from(rem, depth as int, show_mem, show_imm) == (if (depth > 0
                    && show_mem) || (depth <= 0 && show_imm) {
                    rem.take(lit_len(rem))
                } else if depth > 0 {
                    disp_token()
                } else {
                    imm_token()
                }) + redact_from(text@.skip(j as int), depth as int, show_mem, show_imm));
            }
            i = j;
        } else {
            proof {
                assert(!lit_start(rem));
                assert(rem.skip(1) =~= text@.skip(i + 1));
            }
            let c = text[i];
            out.push(c);
            if c == LEFT_BRACKET {
                depth = depth + 1;
            } else if c == RIGHT_BRACKET {
                depth = depth - 1;
            }
            i = i + 1;
        }
    }
    proof {
        assert(text@.skip(text@.len() as int) =~= Seq::<u8>::empty());
        assert(out@ + Seq::<u8>::empty() =~= out@);
    }
    out
}

/// Whether the character is a hexadecimal digit.
fn hex_digit_exec(c: u8) -> (r: bool)
    ensures
        r == is_hex_digit(c),
{
    (48 <= c && c <= 57) || (97 <= c && c <= 102) || (65 <= c && c <= 70)
}

/// The character for one hexadecimal digit value, lower case.
pub open spec fn hex_digit_char(d: u8) -> u8
    recommends
        d < 16,
{
    if d < 10 {
        (48 + d) as u8
    } else {
        (97 + (d - 10)) as u8
    }
}

/// The sixteen-digit, fixed-width hexadecimal form of a 64-bit value.
pub open spec fn hex16(v: u64) -> Seq<u8> {
    Seq::new(16, |i: int| hex_digit_char(((v >> (((15 - i) * 4) as u64)) & 0xf) as u8))
}

/// Writes the fixed-width hexadecimal address column.
pub fn hex16_bytes(v: u64) -> (r: Vec<u8>)
    ensures
        r@ == hex16(v),
{
    let mut out: Vec<u8> = Vec::new();
    let mut k: usize = 0;
    while k < 16
        invariant
            0 <= k <= 16,
            out@.len() == k,
            forall|i: int| 0 <= i < k ==> out@[i] == hex16(v)[i],
        decreases 16 - k,
    {
        let shift: u64 = ((15 - k) as u64) * 4;
        let masked: u64 = (v >> shift) & 0xf;
        proof {
            assert((v >> shift) & 0xf <= 0xf) by (bit_vector);
        }
        let nib: u8 = masked as u8;
        let c: u8 = if nib < 10 {
            48 + nib
        } else {
            97 + (nib - 10)
        };
        out.push(c);
        k = k + 1;
    }
    proof {
        assert(out@ =~= hex16(v));
    }
    out
}

/// The text line emitted for one instruction: the redacted operand text,
/// preceded, when addresses are shown, by the fixed-width hexadecimal
/// address column and a tab.
pub open spec fn format_spec(address: u64, text: Seq<u8>, opts: DisasmOpts) -> Seq<u8> {
    let body = redact_from(text, 0, opts.show_mem_disp, opts.show_imms);
    if opts.print_adresses {
        hex16(address) + seq![TAB] + body
    } else {
        body
    }
}

/// Renders one decoded instruction as its output line under the policy.
/// Purely a per-instruction mapping.
pub fn format(inst: &Instruction, opts: &DisasmOpts) -> (r: Vec<u8>)
    ensures
        r@ == format_spec(inst.address, inst.mnemonic_and_operands@, *opts),
{
    let body = redact(inst.mnemonic_and_operands.as_slice(), opts.show_mem_disp, opts.show_imms);
    if opts.print_adresses {
        let mut line = hex16_bytes(inst.address);
        line.push(TAB);
        let ghost with_tab = line@;
        let mut body = body;
        let ghost body_view = body@;
        line.append(&mut body);
        proof {
            assert(line@ =~= hex16(inst.address) + seq![TAB] + body_view);
        }
        line
    } else {
        body
    }
}

/// The lines for a whole decoded stream, in order.
pub fn format_stream(instrs: &Vec<Instruction>, opts: &DisasmOpts) -> (r: Vec<Vec<u8>>)
    ensures
        r@.map_values(|l: Vec<u8>| l@) == instrs@.map_values(
            |inst: Instruction| format_spec(inst.address, inst.mnemonic_and_operands@, *opts),
        ),
{
    let mut out: Vec<Vec<u8>> = Vec::new();
    let mut k: usize = 0;
    while k < instrs.len()
        invariant
            0 <= k <= instrs@.len(),
            out@.len() == k,
            forall|i: int|
                0 <= i < k ==> (#[trigger] out@[i])@ == format_spec(
                    instrs@[i].address,
                    instrs@[i].mnemonic_and_operands@,
                    *opts,
                ),
        decreases instrs@.len() - k,
    {
        out.push(format(&instrs[k], opts));
        k = k + 1;
    }
    proof {
        assert(out@.map_values(|l: Vec<u8>| l@) =~= instrs@.map_values(
            |inst: Instruction| format_spec(inst.address, inst.mnemonic_and_operands@, *opts),
        ));
    }
    out
}

} // verus!
// The redaction law: scanning an emitted line the same way the redactor
// scans its input finds no literal of a hidden class. `hidden_lit_count`
// is that scan: it counts the literals found at positive bracket depth
// (memory displacements) or at non-positive depth (immediates).

verus! {

/// How many literals the left-to-right scan of `s`, starting at the given
/// bracket depth, finds at positive depth (`in_memory`) or at non-positive
/// depth (`!in_memory`).
pub open spec fn hidden_lit_count(s: Seq<u8>, depth: int, in_memory: bool) -> int
    decreases s.len(),
    via hidden_lit_count_decreases
{
    if s.len() == 0 {
        0
    } else if lit_start(s) {
        (if (in_memory && depth > 0) || (!in_memory && depth <= 0) {
            1int
        } else {
            0int
        }) + hidden_lit_count(s.skip(lit_len(s)), depth, in_memory)
    } else {
        hidden_lit_count(s.skip(1), depth + depth_change(s[0]), in_memory)
    }
}

#[via_fn]
proof fn hidden_lit_count_decreases(s: Seq<u8>, depth: int, in_memory: bool) {
    if s.len() > 0 && lit_start(s) {
        lemma_hex_run_le(s.skip(2));
    }
}

/// The leading hexadecimal run consists of hexadecimal digits and is
/// maximal.
proof fn lemma_hex_run_digits(s: Seq<u8>)
    ensures
        forall|k: int| 0 <= k < hex_run(s) ==> is_hex_digit(#[trigger] s[k]),
        hex_run(s) < s.len() ==> !is_hex_digit(s[hex_run(s)]),
    decreases s.len(),
{
    lemma_hex_run_le(s);
    if s.len() > 0 && is_hex_digit(s[0]) {
        lemma_hex_run_digits(s.skip(1));
        assert forall|k: int| 0 <= k < hex_run(s) implies is_hex_digit(#[trigger] s[k]) by {
            if k > 0 {
                assert(s.skip(1)[k - 1] == s[k]);
            }
        }
        if hex_run(s) < s.len() {
            let h = hex_run(s.skip(1));
            lemma_hex_run_le(s.skip(1));
            assert(hex_run(s) == 1 + h);
            assert(h < s.skip(1).len());
            assert(!is_hex_digit(s.skip(1)[h]));
            assert(s.skip(1) =~= s.subrange(1, s.len() as int));
            assert(s.subrange(1, s.len() as int)[h] == s[h + 1]);
        }
    }
}

/// A prefix without brackets, without the letter of the `0x` prefix, and
/// not ending in a zero digit neither opens a literal nor changes the
/// depth: the scan of the concatenation is the scan of the rest.
proof fn lemma_scan_past_clean(x: Seq<u8>, y: Seq<u8>, depth: int, in_memory: bool)
    requires
        forall|k: int|
            0 <= k < x.len() ==> #[trigger] x[k] != CHAR_LOWER_X && x[k] != LEFT_BRACKET && x[k]
                != RIGHT_BRACKET,
        x.len() > 0 ==> x.last() != CHAR_ZERO,
    ensures
        hidden_lit_count(x + y, depth, in_memory) == hidden_lit_count(y, depth, in_memory),
    decreases x.len(),
{
    if x.len() == 0 {
        assert(x + y =~= y);
    } else {
        let t = x + y;
        assert(t[0] == x[0]);
        if lit_start(t) {
            if x.len() >= 2 {
                assert(t[1] == x[1]);
                assert(false);
            } else {
                assert(t[0] == x.last());
                assert(false);
            }
        }
        assert(t.skip(1) =~= x.skip(1) + y);
        assert(depth_change(t[0]) == 0);
        if x.len() > 1 {
            assert(x.skip(1).last() == x.last());
        }
        assert forall|k: int| 0 <= k < x.skip(1).len() implies #[trigger] x.skip(1)[k]
            != CHAR_LOWER_X && x.skip(1)[k] != LEFT_BRACKET && x.skip(1)[k] != RIGHT_BRACKET by {
            assert(x.skip(1)[k] == x[k + 1]);
        }
        lemma_scan_past_clean(x.skip(1), y, depth, in_memory);
    }
}

/// The redacted text is empty only for empty input, and its first
/// character is the input's first character or the opening of a
/// placeholder token.
proof fn lemma_redact_first(s: Seq<u8>, depth: int, show_mem: bool, show_imm: bool)
    ensures
        redact_from(s, depth, show_mem, show_imm).len() == 0 <==> s.len() == 0,
        s.len() > 0 ==> (redact_from(s, depth, show_mem, show_imm)[0] == s[0] || redact_from(
            s,
            depth,
            show_mem,
            show_imm,
        )[0] == 60),
{
    if s.len() > 0 && lit_start(s) {
        lemma_hex_run_le(s.skip(2));
        lemma_hex_run_le(s.skip(2).skip(1));
        assert(s.skip(2)[0] == s[2]);
        assert(hex_run(s.skip(2)) >= 1);
        assert(lit_len(s) >= 3);
        assert(s.take(lit_len(s))[0] == s[0]);
    }
}

/// Scanning a kept literal chunk followed by text that does not extend its
/// digit run finds the literal once, then scans the rest at the same
/// depth.
proof fn lemma_scan_kept_literal(s: Seq<u8>, r: Seq<u8>, depth: int, in_memory: bool)
    requires
        lit_start(s),
        r.len() > 0 ==> !is_hex_digit(r[0]),
    ensures
        hidden_lit_count(s.take(lit_len(s)) + r, depth, in_memory) == (if (in_memory && depth > 0)
            || (!in_memory && depth <= 0) {
            1int
        } else {
            0int
        }) + hidden_lit_count(r, depth, in_memory),
{
    let l = lit_len(s);
    lemma_hex_run_le(s.skip(2));
    lemma_hex_run_digits(s.skip(2));
    assert(s.skip(2)[0] == s[2]);
    assert(hex_run(s.skip(2)) >= 1);
    let t = s.take(l) + r;
    assert(t[0] == s[0] && t[1] == s[1] && t[2] == s[2]);
    assert(lit_start(t));
    assert forall|k: int| 0 <= k < l - 2 implies is_hex_digit(#[trigger] t.skip(2)[k]) by {
        assert(t.skip(2)[k] == s.take(l)[k + 2]);
        assert(s.take(l)[k + 2] == s[k + 2]);
        assert(s.skip(2)[k] == s[k + 2]);
    }
    if l - 2 < t.skip(2).len() {
        assert(t.skip(2)[l - 2] == r[0]);
    }
    lemma_hex_run_value(t.skip(2), l - 2);
    assert(lit_len(t) == l);
    assert(t.skip(l) =~= r);
}

/// The redaction law: under a policy that hides memory displacements, the
/// scan of the redacted text finds no literal at positive bracket depth;
/// under one that hides immediates, none at non-positive depth. The two
/// hold independently of each other.
pub proof fn lemma_redact_hides(s: Seq<u8>, depth: int, show_mem: bool, show_imm: bool)
    ensures
        !show_mem ==> hidden_lit_count(redact_from(s, depth, show_mem, show_imm), depth, true)
            == 0,
        !show_imm ==> hidden_lit_count(redact_from(s, depth, show_mem, show_imm), depth, false)
            == 0,
    decreases s.len(),
{
    if s.len() == 0 {
    } else if lit_start(s) {
        let l = lit_len(s);
        lemma_hex_run_le(s.skip(2));
        lemma_hex_run_le(s.skip(2).skip(1));
        lemma_hex_run_digits(s.skip(2));
        assert(s.skip(2)[0] == s[2]);
        assert(hex_run(s.skip(2)) >= 1);
        assert(3 <= l <= s.len());
        let rest = s.skip(l);
        let r = redact_from(rest, depth, show_mem, show_imm);
        lemma_redact_hides(rest, depth, show_mem, show_imm);
        lemma_redact_first(rest, depth, show_mem, show_imm);
        // the character after the literal cannot extend its digit run
        if rest.len() > 0 {
            assert(s.skip(2)[l - 2] == s[l]);
            assert(!is_hex_digit(s[l]));
            assert(rest[0] == s[l]);
            assert(r[0] == s[l] || r[0] == 60);
            assert(!is_hex_digit(r[0]));
        }
        let kept = (depth > 0 && show_mem) || (depth <= 0 && show_imm);
        if kept {
            lemma_scan_kept_literal(s, r, depth, true);
            lemma_scan_kept_literal(s, r, depth, false);
        } else if depth > 0 {
            lemma_scan_past_clean(disp_token(), r, depth, true);
            lemma_scan_past_clean(disp_token(), r, depth, false);
        } else {
            lemma_scan_past_clean(imm_token(), r, depth, true);
            lemma_scan_past_clean(imm_token(), r, depth, false);
        }
    } else {
        let c = s[0];
        let d2 = depth + depth_change(c);
        let r = redact_from(s.skip(1), d2, show_mem, show_imm);
        lemma_redact_hides(s.skip(1), d2, show_mem, show_imm);
        lemma_redact_first(s.skip(1), d2, show_mem, show_imm);
        let t = seq![c] + r;
        assert(t[0] == c);
        if lit_start(t) {
            // the input had no literal here, so the redacted tail cannot
            // begin with the missing `x`-and-digit continuation
            assert(c == CHAR_ZERO);
            assert(r.len() >= 2);
            assert(s.len() >= 2);
            assert(t[1] == r[0] && t[2] == r[1]);
            if s[1] != CHAR_LOWER_X {
                assert(r[0] == s[1] || r[0] == 60);
                assert(false);
            } else {
                assert(!lit_start(s.skip(1)));
                assert(redact_from(s.skip(1), d2, show_mem, show_imm) == seq![s[1]] + redact_from(
                    s.skip(1).skip(1),
                    d2 + depth_change(s[1]),
                    show_mem,
                    show_imm,
                ));
                assert(s.skip(1).skip(1) =~= s.skip(2));
                let r2 = redact_from(s.skip(2), d2, show_mem, show_imm);
                lemma_redact_first(s.skip(2), d2, show_mem, show_imm);
                assert(r[1] == r2[0]);
                if s.len() == 2 {
                    assert(r2.len() == 0);
                    assert(false);
                } else {
                    assert(s.skip(2)[0] == s[2]);
                    assert(!is_hex_digit(s[2]));
                    assert(r2[0] == s[2] || r2[0] == 60);
                    assert(!is_hex_digit(r2[0]));
                    assert(false);
                }
            }
        }
        assert(t.skip(1) =~= r);
        assert(hidden_lit_count(t, depth, true) == hidden_lit_count(r, d2, true));
        assert(hidden_lit_count(t, depth, false) == hidden_lit_count(r, d2, false));
    }
}

/// An emitted line under a policy that hides memory displacements carries
/// no memory-displacement literal; under one that hides immediates, no
/// immediate literal. The address column and the tab cannot open or
/// enclose a literal.
pub proof fn lemma_format_redacts(address: u64, text: Seq<u8>, opts: DisasmOpts)
    ensures
        !opts.show_mem_disp ==> hidden_lit_count(format_spec(address, text, opts), 0, true) == 0,
        !opts.show_imms ==> hidden_lit_count(format_spec(address, text, opts), 0, false) == 0,
{
    let body = redact_from(text, 0, opts.show_mem_disp, opts.show_imms);
    lemma_redact_hides(text, 0, opts.show_mem_disp, opts.show_imms);
    if opts.print_adresses {
        let col = hex16(address) + seq![TAB];
        assert forall|k: int| 0 <= k < col.len() implies #[trigger] col[k] != CHAR_LOWER_X
            && col[k] != LEFT_BRACKET && col[k] != RIGHT_BRACKET by {
            if k < 16 {
                let sh: u64 = ((15 - k) * 4) as u64;
                assert((address >> sh) & 0xf < 16) by (bit_vector);
                assert(col[k] == hex_digit_char(((address >> sh) & 0xf) as u8));
            } else {
                assert(col[k] == TAB);
            }
        }
        assert(col.last() == TAB);
        lemma_scan_past_clean(col, body, 0, true);
        lemma_scan_past_clean(col, body, 0, false);
        assert(format_spec(address, text, opts) =~= col + body);
    }
}

} // verus!
