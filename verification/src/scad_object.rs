//! The object tree and its rendering to SCAD source text.

use vstd::prelude::*;
use crate::scad_element::ScadElement;
use crate::scad_element::element_code;
use crate::scad_element::lemma_element_code_no_newline;

verus! {

broadcast use {vstd::seq::group_seq_axioms, vstd::std_specs::vec::group_vec_axioms};

/// One SCAD statement: a single element, an exclusive modifier state, and
/// an ordered list of child objects rendered inside a braced block.
#[derive(Debug, PartialEq)]
pub struct ScadObject {
    pub element: ScadElement,
    pub children: Vec<ScadObject>,
    pub disable: bool,
    pub important: bool,
    pub highlight: bool,
    pub transparent: bool,
}

/// The rendered modifier prefix: at most one character, chosen in a fixed
/// priority order — importance over highlight over transparency. A disabled
/// object is queryable as such but renders with no prefix.
pub open spec fn prefix_code(o: ScadObject) -> Seq<char> {
    if o.important {
        seq!['!']
    } else if o.highlight {
        seq!['#']
    } else if o.transparent {
        seq!['%']
    } else {
        Seq::empty()
    }
}

/// `s` with every newline followed by an extra tab: the substitution that
/// pushes every line of an already rendered block one indent level deeper.
pub open spec fn indented(s: Seq<char>) -> Seq<char>
    decreases s.len(),
{
    if s.len() == 0 {
        Seq::empty()
    } else if s[0] == '\n' {
        seq!['\n', '\t'] + indented(s.skip(1))
    } else {
        seq![s[0]] + indented(s.skip(1))
    }
}

/// The full rendered text of an object: the modifier prefix, the element's
/// head, then either a terminating semicolon or a braced, tab-indented
/// block holding the children in insertion order.
pub open spec fn object_code(o: ScadObject) -> Seq<char>
    decreases o, 0int,
{
    prefix_code(o) + element_code(o.element) + (if o.children@.len() == 0 {
        seq![';']
    } else {
        seq!['\n', '{', '\n'] + children_code(o.children@) + seq!['}']
    })
}

/// The block one child contributes inside its parent's braces: a tab, the
/// child's code with every inner newline gaining a tab, and a final newline.
pub open spec fn child_block(c: ScadObject) -> Seq<char>
    decreases c, 1int,
{
    seq!['\t'] + indented(object_code(c)) + seq!['\n']
}

/// The concatenation of the child blocks, in insertion order.
pub open spec fn children_code(cs: Seq<ScadObject>) -> Seq<char>
    decreases cs, 2int,
{
    if cs.len() == 0 {
        Seq::empty()
    } else {
        child_block(cs[0]) + children_code(cs.skip(1))
    }
}

proof fn lemma_indented_snoc(s: Seq<char>, c: char)
    ensures
        indented(s.push(c)) == indented(s) + (if c == '\n' {
            seq!['\n', '\t']
        } else {
            seq![c]
        }),
    decreases s.len(),
{
    reveal_with_fuel(indented, 3);
    let tail = (if c == '\n' {
        seq!['\n', '\t']
    } else {
        seq![c]
    });
    if s.len() == 0 {
        assert(s.push(c).skip(1) =~= Seq::empty());
        assert(indented(s.push(c)) =~= indented(s) + tail);
    } else {
        assert(s.push(c).skip(1) =~= s.skip(1).push(c));
        lemma_indented_snoc(s.skip(1), c);
        assert(indented(s.push(c)) =~= indented(s) + tail);
    }
}

proof fn lemma_children_code_snoc(cs: Seq<ScadObject>, o: ScadObject)
    ensures
        children_code(cs.push(o)) == children_code(cs) + child_block(o),
    decreases cs.len(),
{
    reveal_with_fuel(children_code, 3);
    if cs.len() == 0 {
        assert(cs.push(o).skip(1) =~= Seq::empty());
        assert(children_code(cs.push(o)) =~= children_code(cs) + child_block(o));
    } else {
        assert(cs.push(o).skip(1) =~= cs.skip(1).push(o));
        lemma_children_code_snoc(cs.skip(1), o);
        assert(children_code(cs.push(o)) =~= children_code(cs) + child_block(o));
    }
}

/// Appends `s` with every newline followed by an extra tab.
fn push_indented(out: &mut String, s: &str)
    ensures
        final(out)@ == old(out)@ + indented(s@),
{
    let n = s.unicode_len();
    let mut j: usize = 0;
    while j < n
        invariant
            n == s@.len(),
            j <= n,
            out@ == old(out)@ + indented(s@.take(j as int)),
        decreases n - j,
    {
        let c = s.get_char(j);
        out.push(c);
        if c == '\n' {
            out.push('\t');
        }
        proof {
            lemma_indented_snoc(s@.take(j as int), c);
            assert(s@.take(j as int + 1) =~= s@.take(j as int).push(c));
            assert(out@ =~= old(out)@ + indented(s@.take(j as int + 1)));
        }
        j += 1;
    }
    proof {
        assert(s@.take(n as int) =~= s@);
    }
}

/// The object with all four modifier flags cleared and every other field
/// unchanged: the single canonical step every modifier setter starts from.
pub open spec fn all_modifiers_clear(o: ScadObject) -> ScadObject {
    ScadObject { disable: false, important: false, highlight: false, transparent: false, ..o }
}

/// How many of the four modifier flags of `o` are set.
pub open spec fn modifier_count(o: ScadObject) -> int {
    (if o.disable {
        1int
    } else {
        0int
    }) + (if o.important {
        1int
    } else {
        0int
    }) + (if o.highlight {
        1int
    } else {
        0int
    }) + (if o.transparent {
        1int
    } else {
        0int
    })
}

impl ScadObject {
    /// A new object for `element`, with no children and no modifier set.
    pub fn new(element: ScadElement) -> (o: ScadObject)
        ensures
            o.element == element,
            o.children@ == Seq::<ScadObject>::empty(),
            o.disable == false,
            o.important == false,
            o.highlight == false,
            o.transparent == false,
    {
        ScadObject {
            element,
            children: Vec::new(),
            disable: false,
            important: false,
            highlight: false,
            transparent: false,
        }
    }

    /// Appends `statement` to the end of this object's child list, taking
    /// ownership of it; every other field is unchanged.
    pub fn add_child(&mut self, statement: ScadObject)
        ensures
            final(self).children@ == old(self).children@.push(statement),
            final(self).element == old(self).element,
            final(self).disable == old(self).disable,
            final(self).important == old(self).important,
            final(self).highlight == old(self).highlight,
            final(self).transparent == old(self).transparent,
    {
        self.children.push(statement);
    }

    /// Returns the SCAD code for the object: the head alone terminated by a
    /// semicolon when there are no children, else the head followed by a
    /// braced block with each child's code indented by one tab.
    pub fn get_code(&self) -> (res: String)
        ensures
            res@ == object_code(*self),
        decreases *self,
    {
        let mut result = String::new();
        if self.important {
            result.append("!");
            proof {
                reveal_strlit("!");
            }
        } else if self.highlight {
            result.append("#");
            proof {
                reveal_strlit("#");
            }
        } else if self.transparent {
            result.append("%");
            proof {
                reveal_strlit("%");
            }
        }
        proof {
            assert(result@ =~= prefix_code(*self));
        }
        let element_text = self.element.get_code();
        result.append(element_text.as_str());
        if self.children.len() == 0 {
            result.append(";");
            proof {
                reveal_strlit(";");
                assert(result@ =~= object_code(*self));
            }
        } else {
            result.append("\n{\n");
            proof {
                reveal_strlit("\n{\n");
            }
            let ghost head = prefix_code(*self) + element_code(self.element) + seq![
                '\n',
                '{',
                '\n',
            ];
            proof {
                assert(result@ =~= head + children_code(self.children@.take(0)));
            }
            let mut i: usize = 0;
            while i < self.children.len()
                invariant
                    i <= self.children@.len(),
                    result@ == head + children_code(self.children@.take(i as int)),
                decreases self.children@.len() - i,
            {
                proof {
                    assert(decreases_to!(*self => self.children@[i as int]));
                }
                let child_text = self.children[i].get_code();
                result.append("\t");
                push_indented(&mut result, child_text.as_str());
                result.append("\n");
                proof {
                    reveal_strlit("\t");
                    reveal_strlit("\n");
                    lemma_children_code_snoc(
                        self.children@.take(i as int),
                        self.children@[i as int],
                    );
                    assert(self.children@.take(i as int + 1) =~= self.children@.take(
                        i as int,
                    ).push(self.children@[i as int]));
                    assert(result@ =~= head + children_code(self.children@.take(i as int + 1)));
                }
                i += 1;
            }
            result.append("}");
            proof {
                reveal_strlit("}");
                assert(self.children@.take(self.children@.len() as int) =~= self.children@);
                assert(result@ =~= object_code(*self));
            }
        }
        result
    }

    /// Whether the object is marked disabled.
    pub fn is_disabled(&self) -> (r: bool)
        ensures
            r == self.disable,
    {
        self.disable
    }

    /// Whether the object is marked important.
    pub fn is_important(&self) -> (r: bool)
        ensures
            r == self.important,
    {
        self.important
    }

    /// Whether the object is marked highlighted.
    pub fn is_highlighted(&self) -> (r: bool)
        ensures
            r == self.highlight,
    {
        self.highlight
    }

    /// Whether the object is marked transparent.
    pub fn is_transparent(&self) -> (r: bool)
        ensures
            r == self.transparent,
    {
        self.transparent
    }

    fn all_modifiers_off(&mut self)
        ensures
            *final(self) == all_modifiers_clear(*old(self)),
    {
        self.disable = false;
        self.important = false;
        self.highlight = false;
        self.transparent = false;
    }

    /// Marks the object as disabled, clearing every other modifier first.
    /// A disabled object keeps its place in the tree but renders with no
    /// prefix character.
    pub fn set_disable(&mut self)
        ensures
            *final(self) == (ScadObject { disable: true, ..all_modifiers_clear(*old(self)) }),
    {
        self.all_modifiers_off();
        self.disable = true;
    }

    /// Marks the object as important, clearing every other modifier first.
    /// Its code is then prefixed with '!'.
    pub fn set_important(&mut self)
        ensures
            *final(self) == (ScadObject { important: true, ..all_modifiers_clear(*old(self)) }),
    {
        self.all_modifiers_off();
        self.important = true;
    }

    /// Marks the object as highlighted, clearing every other modifier first.
    /// Its code is then prefixed with '#'.
    pub fn set_highlighted(&mut self)
        ensures
            *final(self) == (ScadObject { highlight: true, ..all_modifiers_clear(*old(self)) }),
    {
        self.all_modifiers_off();
        self.highlight = true;
    }

    /// Marks the object as transparent, clearing every other modifier first.
    /// Its code is then prefixed with '%'.
    pub fn set_transparent(&mut self)
        ensures
            *final(self) == (ScadObject { transparent: true, ..all_modifiers_clear(*old(self)) }),
    {
        self.all_modifiers_off();
        self.transparent = true;
    }

    /// Consuming variant of [`Self::set_disable`]: takes the object, marks
    /// it disabled and returns it, for fluent construction.
    pub fn disable(self) -> (o: ScadObject)
        ensures
            o == (ScadObject { disable: true, ..all_modifiers_clear(self) }),
    {
        let mut updated = self;
        updated.set_disable();
        updated
    }

    /// Consuming variant of [`Self::set_important`]: takes the object,
    /// marks it important and returns it, for fluent construction.
    pub fn important(self) -> (o: ScadObject)
        ensures
            o == (ScadObject { important: true, ..all_modifiers_clear(self) }),
    {
        let mut updated = self;
        updated.set_important();
        updated
    }

    /// Consuming variant of [`Self::set_highlighted`]: takes the object,
    /// marks it highlighted and returns it, for fluent construction.
    pub fn highlight(self) -> (o: ScadObject)
        ensures
            o == (ScadObject { highlight: true, ..all_modifiers_clear(self) }),
    {
        let mut updated = self;
        updated.set_highlighted();
        updated
    }

    /// Consuming variant of [`Self::set_transparent`]: takes the object,
    /// marks it transparent and returns it, for fluent construction.
    pub fn transparent(self) -> (o: ScadObject)
        ensures
            o == (ScadObject { transparent: true, ..all_modifiers_clear(self) }),
    {
        let mut updated = self;
        updated.set_transparent();
        updated
    }
}

/// Law: whatever the prior modifier state, the state any setter leaves —
/// one target flag over a cleared object — has exactly one of the four
/// flags set. The in-place and consuming setters both produce exactly this
/// state, so the two styles can never drift apart.
pub proof fn lemma_modifier_exclusive(o: ScadObject)
    ensures
        modifier_count((ScadObject { disable: true, ..all_modifiers_clear(o) })) == 1,
        modifier_count((ScadObject { important: true, ..all_modifiers_clear(o) })) == 1,
        modifier_count((ScadObject { highlight: true, ..all_modifiers_clear(o) })) == 1,
        modifier_count((ScadObject { transparent: true, ..all_modifiers_clear(o) })) == 1,
{
}

/// Law: an object without children renders as its element's head text,
/// preceded by at most one modifier character and terminated by one
/// semicolon, with no newline anywhere in the result.
pub proof fn lemma_childless_code(o: ScadObject)
    requires
        o.children@.len() == 0,
    ensures
        object_code(o) == prefix_code(o) + element_code(o.element) + seq![';'],
        prefix_code(o).len() <= 1,
        forall|i: int| 0 <= i < object_code(o).len() ==> #[trigger] object_code(o)[i] != '\n',
{
    lemma_element_code_no_newline(o.element);
}

/// Law: an object with at least one child renders as its (possibly
/// prefixed) head, a newline, an opening brace on its own line, one block
/// per child in insertion order — a tab, the child's code with every inner
/// newline gaining a tab, a newline — and a closing brace with nothing
/// after it.
pub proof fn lemma_parent_code(o: ScadObject)
    requires
        o.children@.len() >= 1,
    ensures
        object_code(o) == prefix_code(o) + element_code(o.element) + seq!['\n', '{', '\n']
            + children_code(o.children@) + seq!['}'],
{
    assert(object_code(o) =~= prefix_code(o) + element_code(o.element) + seq!['\n', '{', '\n']
        + children_code(o.children@) + seq!['}']);
}

} // verus!
