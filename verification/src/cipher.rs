//! The field transform: runs a cipher over the text fields that a value
//! hands out, in place. A field on which the cipher fails keeps its value.

use crate::model::TypeDeclaration;
use vstd::prelude::*;

verus! {

/// The transform of one type: the two ciphers that it was given.
pub struct FieldTransform<F, G> {
    pub owner: String,
    pub encrypt_text: F,
    pub decrypt_text: G,
}

/// What a field holds once the cipher has answered: the cipher's text, or
/// what the field held before where the cipher failed.
pub open spec fn settled<E>(before: Seq<char>, outcome: Result<String, E>) -> Seq<char> {
    match outcome {
        Ok(text) => text@,
        Err(_) => before,
    }
}

/// `after` is what a field that held `before` may hold once `cipher` has
/// run on it.
pub open spec fn transformed<E, F: Fn(&String) -> Result<String, E>>(
    cipher: F,
    before: String,
    after: String,
) -> bool {
    exists|outcome: Result<String, E>|
        #[trigger] call_ensures(cipher, (&before,), outcome) && after@ == settled(before@, outcome)
}

/// Stores the cipher's answer in a field: the text where the cipher
/// succeeded; where it failed the field is left as it is.
pub fn settle<E>(field: &mut String, outcome: Result<String, E>)
    ensures
        final(field)@ == settled(old(field)@, outcome),
{
    match outcome {
        Ok(text) => {
            *field = text;
        },
        Err(_) => {},
    }
}

/// Runs `cipher` over every field, in order. Each field ends as the cipher's
/// answer for it says; a failure on one field does not stop the rest.
pub fn transform<E, F: Fn(&String) -> Result<String, E>>(fields: Vec<&mut String>, cipher: &F)
    requires
        forall|i: int| 0 <= i < fields.len() ==> call_requires(*cipher, (&*#[trigger] fields[i],)),
    ensures
        forall|i: int|
            0 <= i < fields.len() ==> transformed(*cipher, *#[trigger] fields[i], *final(fields[i])),
{
    let ghost given = fields@;
    let mut fields = fields;
    let mut i: usize = 0;
    while i < fields.len()
        invariant
            i <= fields.len(),
            fields.len() == given.len(),
            forall|j: int| 0 <= j < given.len() ==> call_requires(*cipher, (&*#[trigger] given[j],)),
            forall|j: int| 0 <= j < fields.len() ==> *final(#[trigger] fields@[j]) == *final(given[j]),
            forall|j: int| i <= j < fields.len() ==> *(#[trigger] fields@[j]) == *given[j],
            forall|j: int| 0 <= j < i ==> transformed(*cipher, *given[j], *(#[trigger] fields@[j])),
        decreases fields.len() - i,
    {
        assert(call_requires(*cipher, (&*given[i as int],)));
        let outcome = cipher(&*fields[i]);
        settle(&mut *fields[i], outcome);
        i += 1;
    }
    proof {
        assert forall|j: int| 0 <= j < given.len() implies transformed(
            *cipher,
            *#[trigger] given[j],
            *final(given[j]),
        ) by {
            assert(has_resolved(fields@[j]));
            assert(transformed(*cipher, *given[j], *fields@[j]));
        }
    }
}

/// Builds the field transform of a type from the two ciphers. Any
/// declaration is accepted.
pub fn set_cipher_derive_macro<F, G>(decl: &TypeDeclaration, encrypt_text: F, decrypt_text: G) -> (made:
    FieldTransform<F, G>)
    ensures
        made.owner@ == decl.name_text(),
        made.encrypt_text == encrypt_text,
        made.decrypt_text == decrypt_text,
{
    FieldTransform { owner: decl.name().clone(), encrypt_text, decrypt_text }
}

impl<F, G> FieldTransform<F, G> {
    /// Encrypts every field in place. A field that the cipher fails on keeps
    /// its value.
    pub fn encrypt<E>(&self, fields: Vec<&mut String>) where F: Fn(&String) -> Result<String, E>
        requires
            forall|i: int|
                0 <= i < fields.len() ==> call_requires(
                    self.encrypt_text,
                    (&*#[trigger] fields[i],),
                ),
        ensures
            forall|i: int|
                0 <= i < fields.len() ==> transformed(
                    self.encrypt_text,
                    *#[trigger] fields[i],
                    *final(fields[i]),
                ),
    {
        transform(fields, &self.encrypt_text)
    }

    /// Decrypts every field in place. A field that the cipher fails on keeps
    /// its value.
    pub fn decrypt<E>(&self, fields: Vec<&mut String>) where G: Fn(&String) -> Result<String, E>
        requires
            forall|i: int|
                0 <= i < fields.len() ==> call_requires(
                    self.decrypt_text,
                    (&*#[trigger] fields[i],),
                ),
        ensures
            forall|i: int|
                0 <= i < fields.len() ==> transformed(
                    self.decrypt_text,
                    *#[trigger] fields[i],
                    *final(fields[i]),
                ),
    {
        transform(fields, &self.decrypt_text)
    }
}

} // verus!
