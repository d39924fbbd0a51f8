//! Metadata: who wrote a struct and its fields, and the struct's serial
//! version.

use crate::extract::{
    declared, field_directives, field_refusal, first_for, first_of, lemma_first_for_unique,
    lemma_first_of_unique, slot_of, struct_fields, struct_refusal, type_directive, type_refusal,
    unannotated, FieldLevel, TypeLevel,
};
use crate::model::{Directive, FieldDecl, SchemaError, SchemaErrorModel, Synthesizer, TypeDeclaration};
use vstd::prelude::*;

verus! {

/// What a struct tells of its provenance. `field_authors` holds, in
/// declaration order, the fields that name an author, each with its author.
#[derive(Clone, Debug, PartialEq, Eq)]
pub struct MetaDataRecord {
    pub author: String,
    pub serial_version: usize,
    pub field_authors: Vec<(String, String)>,
}

/// A metadata record as contracts speak of it.
pub struct MetaDataModel {
    pub author: Seq<char>,
    pub serial_version: int,
    pub field_authors: Seq<(Seq<char>, Seq<char>)>,
}

impl View for MetaDataRecord {
    type V = MetaDataModel;

    open spec fn view(&self) -> MetaDataModel {
        MetaDataModel {
            author: self.author@,
            serial_version: self.serial_version as int,
            field_authors: Seq::new(
                self.field_authors@.len(),
                |i: int| (self.field_authors@[i].0@, self.field_authors@[i].1@),
            ),
        }
    }
}

impl MetaDataModel {
    /// Entry `i` is the first one for the field `field`.
    pub open spec fn first_entry(self, field: Seq<char>, i: int) -> bool {
        &&& 0 <= i < self.field_authors.len()
        &&& self.field_authors[i].0 == field
        &&& forall|j: int| 0 <= j < i ==> (#[trigger] self.field_authors[j]).0 != field
    }

    /// The field `field` names an author.
    pub open spec fn has_author(self, field: Seq<char>) -> bool {
        exists|i: int| 0 <= i < self.field_authors.len() && (#[trigger] self.field_authors[i]).0 == field
    }
}

/// The author that the type's author directive names.
pub open spec fn type_author(directives: Seq<Directive>) -> Seq<char> {
    let k = choose|k: int| first_of(directives, TypeLevel::Author, k);
    match directives[k] {
        Directive::Author(author) => author.author@,
        _ => Seq::empty(),
    }
}

/// The serial version that the type's author directive names: 0 where it
/// names none.
pub open spec fn type_serial_version(directives: Seq<Directive>) -> int {
    let k = choose|k: int| first_of(directives, TypeLevel::Author, k);
    match directives[k] {
        Directive::Author(author) => match author.serial_version {
            Some(version) => version as int,
            None => 0,
        },
        _ => 0,
    }
}

/// The author that the directives name for the field `field`.
pub open spec fn author_for(directives: Seq<Directive>, field: Seq<char>) -> Seq<char> {
    let k = choose|k: int| first_for(directives, FieldLevel::FieldAuthor, field, k);
    match directives[k] {
        Directive::FieldAuthor(author) => author.author@,
        _ => Seq::empty(),
    }
}

/// The fields that name an author, in declaration order, each with its
/// author.
pub open spec fn authored(fields: Seq<FieldDecl>, directives: Seq<Directive>) -> Seq<
    (Seq<char>, Seq<char>),
>
    decreases fields.len(),
{
    if fields.len() == 0 {
        Seq::empty()
    } else {
        let field = fields.last().name@;
        let before = authored(fields.drop_last(), directives);
        if unannotated(directives, FieldLevel::FieldAuthor, field) {
            before
        } else {
            before.push((field, author_for(directives, field)))
        }
    }
}

/// The metadata of a struct that carries one author directive.
pub open spec fn metadata_of(decl: TypeDeclaration, directives: Seq<Directive>) -> MetaDataModel {
    MetaDataModel {
        author: type_author(directives),
        serial_version: type_serial_version(directives),
        field_authors: authored(decl.field_decls(), directives),
    }
}

/// The error with which metadata synthesis refuses a declaration, if it
/// does: an enum; else a missing or repeated author directive; else a field
/// author directive on an undeclared field; else a field with several author
/// directives.
pub open spec fn metadata_refusal(decl: TypeDeclaration, directives: Seq<Directive>) -> Option<
    SchemaErrorModel,
> {
    if struct_refusal(Synthesizer::MetaData, decl) is Some {
        struct_refusal(Synthesizer::MetaData, decl)
    } else if type_refusal(Synthesizer::MetaData, decl.name_text(), directives, TypeLevel::Author)
        is Some {
        type_refusal(Synthesizer::MetaData, decl.name_text(), directives, TypeLevel::Author)
    } else {
        field_refusal(
            Synthesizer::MetaData,
            decl.name_text(),
            decl.field_decls(),
            directives,
            FieldLevel::FieldAuthor,
        )
    }
}

/// A field has an entry among the authored fields exactly when it is
/// declared and a field author directive names it; the entry then holds the
/// author that the directive names.
pub proof fn lemma_authored_entries(fields: Seq<FieldDecl>, directives: Seq<Directive>)
    ensures
        forall|i: int|
            0 <= i < authored(fields, directives).len() ==> {
                let entry = #[trigger] authored(fields, directives)[i];
                &&& declared(fields, entry.0)
                &&& !unannotated(directives, FieldLevel::FieldAuthor, entry.0)
                &&& entry.1 == author_for(directives, entry.0)
            },
        forall|j: int|
            0 <= j < fields.len() && !unannotated(
                directives,
                FieldLevel::FieldAuthor,
                (#[trigger] fields[j]).name@,
            ) ==> exists|i: int|
                0 <= i < authored(fields, directives).len() && (#[trigger] authored(
                    fields,
                    directives,
                )[i]).0 == fields[j].name@,
    decreases fields.len(),
{
    if fields.len() > 0 {
        let shorter = fields.drop_last();
        let field = fields.last().name@;
        lemma_authored_entries(shorter, directives);
        let before = authored(shorter, directives);
        let all = authored(fields, directives);
        assert forall|i: int| 0 <= i < all.len() implies {
            let entry = #[trigger] all[i];
            &&& declared(fields, entry.0)
            &&& !unannotated(directives, FieldLevel::FieldAuthor, entry.0)
            &&& entry.1 == author_for(directives, entry.0)
        } by {
            if i < before.len() {
                assert(all[i] == before[i]);
                let k = choose|k: int|
                    0 <= k < shorter.len() && (#[trigger] shorter[k]).name@ == before[i].0;
                assert(fields[k].name@ == before[i].0);
            } else {
                assert(fields[fields.len() - 1].name@ == field);
            }
        }
        assert forall|j: int|
            0 <= j < fields.len() && !unannotated(
                directives,
                FieldLevel::FieldAuthor,
                (#[trigger] fields[j]).name@,
            ) implies exists|i: int|
            0 <= i < all.len() && (#[trigger] all[i]).0 == fields[j].name@ by {
            if j < shorter.len() {
                assert(shorter[j] == fields[j]);
                let i = choose|i: int|
                    0 <= i < before.len() && (#[trigger] before[i]).0 == shorter[j].name@;
                assert(all[i] == before[i]);
            } else {
                assert(all[all.len() - 1].0 == field);
            }
        }
    }
}

/// Builds the metadata of a struct from its author directive and its field
/// author directives. The serial version is 0 where the directive names
/// none; a field without an author is left out of the field authors.
/// Refused are: an enum, a struct without an author directive or with
/// several, a field author directive that names no field of the struct, and
/// a field with several author directives.
pub fn meta_data_derive_macro(decl: &TypeDeclaration, directives: &Vec<Directive>) -> (outcome: Result<
    MetaDataRecord,
    SchemaError,
>)
    ensures
        outcome is Err <==> metadata_refusal(*decl, directives@) is Some,
        outcome matches Err(error) ==> Some(error@) == metadata_refusal(*decl, directives@),
        outcome matches Ok(record) ==> record@ == metadata_of(*decl, directives@),
        outcome matches Ok(record) ==> forall|field: Seq<char>|
            record@.has_author(field) <==> declared(decl.field_decls(), field) && !unannotated(
                directives@,
                FieldLevel::FieldAuthor,
                field,
            ),
{
    let fields = match struct_fields(Synthesizer::MetaData, decl) {
        Ok(fields) => fields,
        Err(error) => {
            return Err(error);
        },
    };
    let owner = decl.name();
    let at = match type_directive(Synthesizer::MetaData, owner, directives, TypeLevel::Author) {
        Ok(at) => at,
        Err(error) => {
            return Err(error);
        },
    };
    let slots = match field_directives(
        Synthesizer::MetaData,
        owner,
        fields,
        directives,
        FieldLevel::FieldAuthor,
    ) {
        Ok(slots) => slots,
        Err(error) => {
            return Err(error);
        },
    };
    proof {
        let k = choose|k: int| first_of(directives@, TypeLevel::Author, k);
        lemma_first_of_unique(directives@, TypeLevel::Author, at as int, k);
    }
    let (author, serial_version) = match &directives[at] {
        Directive::Author(author) => (
            author.author.clone(),
            match author.serial_version {
                Some(version) => version,
                None => 0,
            },
        ),
        _ => (String::new(), 0),
    };
    let mut field_authors: Vec<(String, String)> = Vec::new();
    let mut i: usize = 0;
    while i < fields.len()
        invariant
            i <= fields.len(),
            slots.len() == fields.len(),
            forall|j: int|
                0 <= j < fields.len() ==> slot_of(
                    directives@,
                    FieldLevel::FieldAuthor,
                    fields@[j].name@,
                    #[trigger] slots@[j],
                ),
            Seq::new(field_authors@.len(), |k: int| (field_authors@[k].0@, field_authors@[k].1@))
                == authored(fields@.take(i as int), directives@),
        decreases fields.len() - i,
    {
        let field = &fields[i];
        proof {
            assert(fields@.take(i + 1).drop_last() =~= fields@.take(i as int));
            assert(fields@.take(i + 1).last() == fields@[i as int]);
        }
        let ghost before = Seq::new(
            field_authors@.len(),
            |k: int| (field_authors@[k].0@, field_authors@[k].1@),
        );
        match slots[i] {
            Some(k) => {
                proof {
                    let first = choose|first: int|
                        first_for(directives@, FieldLevel::FieldAuthor, field.name@, first);
                    lemma_first_for_unique(
                        directives@,
                        FieldLevel::FieldAuthor,
                        field.name@,
                        k as int,
                        first,
                    );
                }
                match &directives[k] {
                    Directive::FieldAuthor(named) => {
                        field_authors.push((field.name.clone(), named.author.clone()));
                    },
                    _ => {},
                }
                assert(Seq::new(
                    field_authors@.len(),
                    |k: int| (field_authors@[k].0@, field_authors@[k].1@),
                ) =~= before.push((field.name@, author_for(directives@, field.name@))));
            },
            None => {},
        }
        i += 1;
    }
    assert(fields@.take(fields.len() as int) =~= fields@);
    let record = MetaDataRecord { author, serial_version, field_authors };
    proof {
        lemma_authored_entries(fields@, directives@);
        assert forall|field: Seq<char>|
            record@.has_author(field) <==> declared(decl.field_decls(), field) && !unannotated(
                directives@,
                FieldLevel::FieldAuthor,
                field,
            ) by {
            let all = authored(fields@, directives@);
            assert(record@.field_authors == all);
            if record@.has_author(field) {
                let i = choose|i: int| 0 <= i < all.len() && (#[trigger] all[i]).0 == field;
                assert(declared(fields@, all[i].0));
            }
            if declared(fields@, field) && !unannotated(
                directives@,
                FieldLevel::FieldAuthor,
                field,
            ) {
                let j = choose|j: int| 0 <= j < fields.len() && (#[trigger] fields@[j]).name@ == field;
                let i = choose|i: int| 0 <= i < all.len() && (#[trigger] all[i]).0 == fields@[j].name@;
                assert(record@.field_authors[i].0 == field);
            }
        }
    }
    Ok(record)
}

impl MetaDataRecord {
    /// The author of the field `field`, if the field names one.
    pub fn field_author(&self, field: &str) -> (author: Option<&str>)
        ensures
            author is Some <==> self@.has_author(field@),
            author matches Some(name) ==> exists|i: int|
                self@.first_entry(field@, i) && name@ == self@.field_authors[i].1,
    {
        let wanted = field.to_owned();
        let mut i: usize = 0;
        while i < self.field_authors.len()
            invariant
                i <= self.field_authors.len(),
                wanted@ == field@,
                forall|j: int| 0 <= j < i ==> (#[trigger] self@.field_authors[j]).0 != field@,
            decreases self.field_authors.len() - i,
        {
            if self.field_authors[i].0 == wanted {
                assert(self@.first_entry(field@, i as int));
                return Some(self.field_authors[i].1.as_str());
            }
            i += 1;
        }
        None
    }

    /// The author of the type.
    pub fn author(&self) -> (author: &str)
        ensures
            author@ == self@.author,
    {
        self.author.as_str()
    }

    /// The serial version of the type.
    pub fn serial_version(&self) -> (version: usize)
        ensures
            version == self@.serial_version,
    {
        self.serial_version
    }

    /// The fields that name an author, in declaration order, each with its
    /// author.
    pub fn field_authors(&self) -> (entries: Vec<(&str, &str)>)
        ensures
            entries.len() == self@.field_authors.len(),
            forall|i: int|
                0 <= i < entries.len() ==> ((#[trigger] entries@[i]).0@, entries@[i].1@)
                    == self@.field_authors[i],
    {
        let mut entries: Vec<(&str, &str)> = Vec::new();
        let mut i: usize = 0;
        while i < self.field_authors.len()
            invariant
                i <= self.field_authors.len(),
                entries.len() == i,
                forall|j: int|
                    0 <= j < i ==> ((#[trigger] entries@[j]).0@, entries@[j].1@)
                        == self@.field_authors[j],
            decreases self.field_authors.len() - i,
        {
            let entry = &self.field_authors[i];
            entries.push((entry.0.as_str(), entry.1.as_str()));
            i += 1;
        }
        entries
    }
}

} // verus!
