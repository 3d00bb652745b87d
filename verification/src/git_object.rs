use vstd::prelude::*;
use vstd::string::StrSliceExecFns;

use crate::compressed_git_object::{
    inflate_of, parse_inflated_spec, CompressedGitObject, CompressedGitObjectError,
};

verus! {

/// The declared type of a loose object's payload.
#[derive(Debug, PartialEq, Eq, Structural, Clone, Copy)]
pub enum ObjectTypes {
    Blob,
    Tree,
    Commit,
    Tag,
}

/// The lowercase ASCII token that names each object kind.
pub open spec fn object_type_token(t: ObjectTypes) -> Seq<char> {
    match t {
        ObjectTypes::Blob => seq!['b', 'l', 'o', 'b'],
        ObjectTypes::Tree => seq!['t', 'r', 'e', 'e'],
        ObjectTypes::Commit => seq!['c', 'o', 'm', 'm', 'i', 't'],
        ObjectTypes::Tag => seq!['t', 'a', 'g'],
    }
}

/// The object kind a header token names, if any: an exact lowercase match
/// against `blob`, `tree`, `commit` and `tag`.
pub open spec fn object_type_of_token(tok: Seq<char>) -> Option<ObjectTypes> {
    if tok == object_type_token(ObjectTypes::Blob) {
        Some(ObjectTypes::Blob)
    } else if tok == object_type_token(ObjectTypes::Tree) {
        Some(ObjectTypes::Tree)
    } else if tok == object_type_token(ObjectTypes::Commit) {
        Some(ObjectTypes::Commit)
    } else if tok == object_type_token(ObjectTypes::Tag) {
        Some(ObjectTypes::Tag)
    } else {
        None
    }
}

impl ObjectTypes {
    /// Resolves a header token to the object kind it names; any other token is
    /// an unknown type name.
    pub fn from_str(s: &str) -> (r: Result<ObjectTypes, CompressedGitObjectError>)
        ensures
            match object_type_of_token(s@) {
                Some(t) => r matches Ok(t2) && t2 == t,
                None => r matches Err(e) && e == CompressedGitObjectError::InvalidTypeName,
            },
    {
        let n = s.unicode_len();
        if n == 4 && s.get_char(0) == 'b' && s.get_char(1) == 'l' && s.get_char(2) == 'o'
            && s.get_char(3) == 'b' {
            proof {
                assert(s@ =~= object_type_token(ObjectTypes::Blob));
            }
            Ok(ObjectTypes::Blob)
        } else if n == 4 && s.get_char(0) == 't' && s.get_char(1) == 'r' && s.get_char(2) == 'e'
            && s.get_char(3) == 'e' {
            proof {
                assert(s@ =~= object_type_token(ObjectTypes::Tree));
            }
            Ok(ObjectTypes::Tree)
        } else if n == 6 && s.get_char(0) == 'c' && s.get_char(1) == 'o' && s.get_char(2) == 'm'
            && s.get_char(3) == 'm' && s.get_char(4) == 'i' && s.get_char(5) == 't' {
            proof {
                assert(s@ =~= object_type_token(ObjectTypes::Commit));
            }
            Ok(ObjectTypes::Commit)
        } else if n == 3 && s.get_char(0) == 't' && s.get_char(1) == 'a' && s.get_char(2) == 'g' {
            proof {
                assert(s@ =~= object_type_token(ObjectTypes::Tag));
            }
            Ok(ObjectTypes::Tag)
        } else {
            Err(CompressedGitObjectError::InvalidTypeName)
        }
    }
}

/// A decoded loose object: its kind, the length its header declared, and its
/// content bytes. A well-formed object's declared length equals the content's
/// actual size, and the constructor keeps it that way.
#[derive(Debug)]
pub struct GitObject {
    pub object_type: ObjectTypes,
    pub length: u64,
    pub content: Vec<u8>,
}

impl GitObject {
    /// The declared length matches the content's size.
    pub open spec fn wf(self) -> bool {
        self.length as int == self.content@.len()
    }

    /// Builds an object from already-decoded parts; the declared length must
    /// match the content's size.
    pub fn new(object_type: ObjectTypes, length: u64, content: &Vec<u8>) -> (r: GitObject)
        requires
            length as int == content@.len(),
        ensures
            r.object_type == object_type,
            r.length == length,
            r.content@ == content@,
            r.wf(),
    {
        GitObject { object_type, length, content: vstd::slice::slice_to_vec(content.as_slice()) }
    }

    /// Decodes a compressed loose-object buffer into a well-formed object.
    pub fn from_u8_vec(data: &Vec<u8>) -> (r: Result<GitObject, CompressedGitObjectError>)
        ensures
            match inflate_of(data@) {
                None => r matches Err(e) && e == CompressedGitObjectError::InvalidZlibData,
                Some(inflated) => match parse_inflated_spec(inflated) {
                    Ok(tnc) => r matches Ok(g) && g.object_type == tnc.0 && g.length == tnc.1
                        && g.content@ == tnc.2 && g.wf(),
                    Err(e) => r matches Err(e2) && e2 == e,
                },
            },
    {
        let compressed = CompressedGitObject::new(data);
        let (object_type, length, content) = match compressed.parse() {
            Ok(v) => v,
            Err(e) => {
                return Err(e);
            },
        };
        Ok(GitObject::new(object_type, length, &content))
    }
}

fn bytes_eq(a: &Vec<u8>, b: &Vec<u8>) -> (r: bool)
    ensures
        r == (a@ == b@),
{
    if a.len() != b.len() {
        return false;
    }
    let mut i: usize = 0;
    while i < a.len()
        invariant
            0 <= i <= a@.len(),
            a@.len() == b@.len(),
            forall|j: int| 0 <= j < i ==> a@[j] == b@[j],
        decreases a@.len() - i,
    {
        if a[i] != b[i] {
            return false;
        }
        i += 1;
    }
    proof {
        assert(a@ =~= b@);
    }
    true
}

impl PartialEq for GitObject {
    fn eq(&self, other: &GitObject) -> (r: bool) {
        self.object_type == other.object_type && self.length == other.length && bytes_eq(
            &self.content,
            &other.content,
        )
    }
}

impl vstd::std_specs::cmp::PartialEqSpecImpl for GitObject {
    open spec fn obeys_eq_spec() -> bool {
        true
    }

    open spec fn eq_spec(&self, other: &GitObject) -> bool {
        self.object_type == other.object_type && self.length == other.length && self.content@
            == other.content@
    }
}

} // verus!
