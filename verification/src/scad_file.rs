//! The top-level file: ordered objects plus the global detail setting.

use vstd::prelude::*;
use crate::scad_object::ScadObject;
use crate::scad_object::object_code;
use crate::text::int_code;
use crate::text::push_int;

verus! {

/// The concatenation of each object's code followed by one newline, in
/// insertion order, with no other separator.
pub open spec fn objects_code(os: Seq<ScadObject>) -> Seq<char>
    decreases os.len(),
{
    if os.len() == 0 {
        Seq::empty()
    } else {
        object_code(os[0]) + seq!['\n'] + objects_code(os.skip(1))
    }
}

/// The header line for the detail setting: nothing when the setting is
/// zero (zero means unset), else `$fn=<detail>;` and a newline.
pub open spec fn detail_code(detail: int) -> Seq<char> {
    if detail == 0 {
        Seq::empty()
    } else {
        seq!['$', 'f', 'n', '='] + int_code(detail) + seq![';', '\n']
    }
}

/// The full text of a file: the optional detail header, then every
/// top-level object's code, each followed by a newline.
pub open spec fn file_code(f: ScadFile) -> Seq<char> {
    detail_code(f.detail as int) + objects_code(f.objects@)
}

proof fn lemma_objects_code_snoc(os: Seq<ScadObject>, o: ScadObject)
    ensures
        objects_code(os.push(o)) == objects_code(os) + object_code(o) + seq!['\n'],
    decreases os.len(),
{
    reveal_with_fuel(objects_code, 3);
    if os.len() == 0 {
        assert(os.push(o).skip(1) =~= Seq::empty());
        assert(objects_code(os.push(o)) =~= objects_code(os) + object_code(o) + seq!['\n']);
    } else {
        assert(os.push(o).skip(1) =~= os.skip(1).push(o));
        lemma_objects_code_snoc(os.skip(1), o);
        assert(objects_code(os.push(o)) =~= objects_code(os) + object_code(o) + seq!['\n']);
    }
}

/// Stores top-level objects along with the global detail setting for the
/// whole file, and renders them as one SCAD program.
#[derive(Debug, PartialEq)]
pub struct ScadFile {
    pub objects: Vec<ScadObject>,
    pub detail: i32,
}

impl ScadFile {
    /// A new file with no objects and the detail setting unset.
    pub fn new() -> (f: ScadFile)
        ensures
            f.objects@ == Seq::<ScadObject>::empty(),
            f.detail == 0,
    {
        ScadFile { objects: Vec::new(), detail: 0 }
    }

    /// Returns the code for the global parameters as well as all the
    /// objects in the file: the `$fn` header when the detail setting is
    /// nonzero, then each object's code followed by a newline.
    pub fn get_code(&self) -> (res: String)
        ensures
            res@ == file_code(*self),
    {
        let mut result = String::new();
        if self.detail != 0 {
            result.append("$fn=");
            push_int(&mut result, self.detail as i64);
            result.append(";\n");
            proof {
                reveal_strlit("$fn=");
                reveal_strlit(";\n");
            }
        }
        proof {
            assert(result@ =~= detail_code(self.detail as int));
        }
        let ghost header = detail_code(self.detail as int);
        let mut i: usize = 0;
        while i < self.objects.len()
            invariant
                i <= self.objects@.len(),
                result@ == header + objects_code(self.objects@.take(i as int)),
            decreases self.objects@.len() - i,
        {
            let object_text = self.objects[i].get_code();
            result.append(object_text.as_str());
            result.append("\n");
            proof {
                reveal_strlit("\n");
                lemma_objects_code_snoc(self.objects@.take(i as int), self.objects@[i as int]);
                assert(self.objects@.take(i as int + 1) =~= self.objects@.take(i as int).push(
                    self.objects@[i as int],
                ));
                assert(result@ =~= header + objects_code(self.objects@.take(i as int + 1)));
            }
            i += 1;
        }
        proof {
            assert(self.objects@.take(self.objects@.len() as int) =~= self.objects@);
        }
        result
    }

    /// Appends `object` to the end of the file's top-level objects, taking
    /// ownership of it; the detail setting is unchanged.
    pub fn add_object(&mut self, object: ScadObject)
        ensures
            final(self).objects@ == old(self).objects@.push(object),
            final(self).detail == old(self).detail,
    {
        self.objects.push(object);
    }

    /// Sets the `$fn` detail setting for the whole file. Any value is
    /// accepted; zero means the header line is omitted.
    pub fn set_detail(&mut self, detail: i32)
        ensures
            final(self).detail == detail,
            final(self).objects@ == old(self).objects@,
    {
        self.detail = detail;
    }
}

impl Default for ScadFile {
    /// Same as [`ScadFile::new`]: an empty file with the detail unset.
    fn default() -> (f: Self)
        ensures
            f.objects@ == Seq::<ScadObject>::empty(),
            f.detail == 0,
    {
        ScadFile::new()
    }
}

} // verus!
