//! The catalog of drawable elements and the head text each one renders to.

use vstd::prelude::*;
use crate::text::int_code;
use crate::text::lemma_int_code_no_newline;
use crate::text::push_int;

verus! {

/// A three-component vector of integer coordinates, used for sizes and
/// offsets of elements.
#[derive(Clone, Copy, PartialEq, Eq, Structural, Debug)]
pub struct Vec3 {
    pub x: i64,
    pub y: i64,
    pub z: i64,
}

/// Builds a [`Vec3`] from its three coordinates.
pub fn vec3(x: i64, y: i64, z: i64) -> (v: Vec3)
    ensures
        v == (Vec3 { x, y, z }),
{
    Vec3 { x, y, z }
}

/// One drawable primitive or transform, carrying exactly the parameters
/// that element needs. The set is closed: every element has a rendering
/// rule in [`element_code`], with no fallback.
#[derive(Clone, Copy, PartialEq, Eq, Structural, Debug)]
pub enum ScadElement {
    Cube(Vec3),
    Translate(Vec3),
    Union,
    Difference,
}

/// The text of a vector: bracketed, comma-separated coordinates, no spaces.
pub open spec fn vector_code(v: Vec3) -> Seq<char> {
    seq!['['] + int_code(v.x as int) + seq![','] + int_code(v.y as int) + seq![','] + int_code(
        v.z as int,
    ) + seq![']']
}

/// The head text of an element: its name plus parenthesized parameters,
/// function-call style, with no trailing terminator and no newline.
pub open spec fn element_code(e: ScadElement) -> Seq<char> {
    match e {
        ScadElement::Cube(v) => seq!['c', 'u', 'b', 'e', '('] + vector_code(v) + seq![')'],
        ScadElement::Translate(v) => seq!['t', 'r', 'a', 'n', 's', 'l', 'a', 't', 'e', '(']
            + vector_code(v) + seq![')'],
        ScadElement::Union => seq!['u', 'n', 'i', 'o', 'n', '(', ')'],
        ScadElement::Difference => seq!['d', 'i', 'f', 'f', 'e', 'r', 'e', 'n', 'c', 'e', '(', ')'],
    }
}

/// No element's head text contains a newline.
pub proof fn lemma_element_code_no_newline(e: ScadElement)
    ensures
        forall|i: int|
            0 <= i < element_code(e).len() ==> #[trigger] element_code(e)[i] != '\n',
{
    match e {
        ScadElement::Cube(v) | ScadElement::Translate(v) => {
            lemma_int_code_no_newline(v.x as int);
            lemma_int_code_no_newline(v.y as int);
            lemma_int_code_no_newline(v.z as int);
        },
        _ => {},
    }
}

fn push_vector(out: &mut String, v: Vec3)
    ensures
        final(out)@ == old(out)@ + vector_code(v),
{
    out.push('[');
    push_int(out, v.x);
    out.push(',');
    push_int(out, v.y);
    out.push(',');
    push_int(out, v.z);
    out.push(']');
    proof {
        assert(final(out)@ =~= old(out)@ + vector_code(v));
    }
}

impl ScadElement {
    /// Returns the head text of this element.
    pub fn get_code(&self) -> (res: String)
        ensures
            res@ == element_code(*self),
    {
        let mut result = String::new();
        match self {
            ScadElement::Cube(v) => {
                result.append("cube(");
                push_vector(&mut result, *v);
                result.append(")");
                proof {
                    reveal_strlit("cube(");
                    reveal_strlit(")");
                    assert(result@ =~= element_code(*self));
                }
            },
            ScadElement::Translate(v) => {
                result.append("translate(");
                push_vector(&mut result, *v);
                result.append(")");
                proof {
                    reveal_strlit("translate(");
                    reveal_strlit(")");
                    assert(result@ =~= element_code(*self));
                }
            },
            ScadElement::Union => {
                result.append("union()");
                proof {
                    reveal_strlit("union()");
                    assert(result@ =~= element_code(*self));
                }
            },
            ScadElement::Difference => {
                result.append("difference()");
                proof {
                    reveal_strlit("difference()");
                    assert(result@ =~= element_code(*self));
                }
            },
        }
        result
    }
}

} // verus!
