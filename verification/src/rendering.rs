//! Rendering of codewords as digit strings. A codeword is a sequence of
//! bytes; each byte is rendered as the decimal digit of the same value, so
//! only bytes zero through nine can be rendered at all.

use vstd::prelude::*;

use crate::errors::ValidationError;

verus! {

/// The digit character that renders one codeword byte. Meaningful only for
/// bytes zero through nine; larger bytes must be rejected before rendering.
pub open spec fn digit_char(b: u8) -> char {
    if b == 0 {
        '0'
    } else if b == 1 {
        '1'
    } else if b == 2 {
        '2'
    } else if b == 3 {
        '3'
    } else if b == 4 {
        '4'
    } else if b == 5 {
        '5'
    } else if b == 6 {
        '6'
    } else if b == 7 {
        '7'
    } else if b == 8 {
        '8'
    } else {
        '9'
    }
}

/// Whether every byte of a codeword has a decimal digit to render as.
pub open spec fn code_in_range(code: Seq<u8>) -> bool {
    forall|k: int| 0 <= k < code.len() ==> code[k] <= 9
}

/// The digit string that renders a codeword, one digit per byte.
pub open spec fn render_spec(code: Seq<u8>) -> Seq<char> {
    code.map_values(|b: u8| digit_char(b))
}

/// Whether every codeword in a sequence can be rendered.
pub open spec fn all_codes_in_range(codes: Seq<Vec<u8>>) -> bool {
    forall|i: int| 0 <= i < codes.len() ==> code_in_range(#[trigger] codes[i]@)
}

/// Whether the rendered digit strings of a sequence of codewords are
/// pairwise distinct.
pub open spec fn renderings_distinct(codes: Seq<Vec<u8>>) -> bool {
    forall|i: int, j: int|
        0 <= i < j < codes.len() ==> render_spec(codes[i]@) != render_spec(codes[j]@)
}

/// On renderable codewords, rendering is injective: equal digit strings can
/// only come from equal codewords.
pub proof fn lemma_render_injective(a: Seq<u8>, b: Seq<u8>)
    requires
        code_in_range(a),
        code_in_range(b),
        render_spec(a) == render_spec(b),
    ensures
        a == b,
{
    assert(render_spec(a).len() == a.len());
    assert(render_spec(b).len() == b.len());
    assert(a.len() == b.len());
    assert forall|k: int| 0 <= k < a.len() implies a[k] == b[k] by {
        assert(render_spec(a)[k] == digit_char(a[k]));
        assert(render_spec(b)[k] == digit_char(b[k]));
    }
    assert(a =~= b);
}

/// Codewords that are pairwise distinct as byte sequences also render
/// pairwise distinct, so comparing codewords via their digit strings rejects
/// exactly the assignments that repeat a codeword.
pub proof fn lemma_distinct_codes_render_distinct(codes: Seq<Vec<u8>>)
    requires
        all_codes_in_range(codes),
        forall|i: int, j: int| 0 <= i < j < codes.len() ==> codes[i]@ != codes[j]@,
    ensures
        renderings_distinct(codes),
{
    assert forall|i: int, j: int| 0 <= i < j < codes.len() implies render_spec(codes[i]@)
        != render_spec(codes[j]@) by {
        if render_spec(codes[i]@) == render_spec(codes[j]@) {
            lemma_render_injective(codes[i]@, codes[j]@);
        }
    }
}

/// The one-character string that renders a single codeword byte.
pub fn digit_str(b: u8) -> (r: &'static str)
    requires
        b <= 9,
    ensures
        r@ =~= seq![digit_char(b)],
{
    proof {
        reveal_strlit("0");
        reveal_strlit("1");
        reveal_strlit("2");
        reveal_strlit("3");
        reveal_strlit("4");
        reveal_strlit("5");
        reveal_strlit("6");
        reveal_strlit("7");
        reveal_strlit("8");
        reveal_strlit("9");
    }
    if b == 0 {
        "0"
    } else if b == 1 {
        "1"
    } else if b == 2 {
        "2"
    } else if b == 3 {
        "3"
    } else if b == 4 {
        "4"
    } else if b == 5 {
        "5"
    } else if b == 6 {
        "6"
    } else if b == 7 {
        "7"
    } else if b == 8 {
        "8"
    } else {
        "9"
    }
}

/// Renders a codeword whose bytes are already known to be renderable.
pub fn render_in_range(code: &Vec<u8>) -> (r: String)
    requires
        code_in_range(code@),
    ensures
        r@ == render_spec(code@),
{
    let mut out = String::new();
    let mut k: usize = 0;
    while k < code.len()
        invariant
            code_in_range(code@),
            k <= code@.len(),
            out@ == render_spec(code@.subrange(0, k as int)),
        decreases code@.len() - k,
    {
        out.append(digit_str(code[k]));
        k = k + 1;
        proof {
            assert(code@.subrange(0, k as int) =~= code@.subrange(0, k - 1).push(code@[k - 1]));
            assert(render_spec(code@.subrange(0, k as int)) =~= render_spec(
                code@.subrange(0, k - 1),
            ).push(digit_char(code@[k - 1])));
        }
    }
    proof {
        assert(code@.subrange(0, code@.len() as int) =~= code@);
    }
    out
}

/// Renders a codeword as its digit string, rejecting any codeword that holds
/// a byte with no decimal digit.
pub fn render_code(code: &Vec<u8>) -> (r: Result<String, ValidationError>)
    ensures
        match r {
            Ok(s) => code_in_range(code@) && s@ == render_spec(code@),
            Err(e) => !code_in_range(code@) && e == ValidationError::EncodingRange,
        },
{
    let mut k: usize = 0;
    while k < code.len()
        invariant
            k <= code@.len(),
            forall|j: int| 0 <= j < k ==> code@[j] <= 9,
        decreases code@.len() - k,
    {
        if code[k] > 9 {
            return Err(ValidationError::EncodingRange);
        }
        k = k + 1;
    }
    Ok(render_in_range(code))
}

} // verus!
