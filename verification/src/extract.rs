//! The directive extractor: finds, among the annotations attached to a type,
//! those that a synthesizer asks for, and reports what is missing, repeated
//! or attached to a field that the type does not have.

use crate::model::{Directive, Fault, FieldDecl, SchemaError, SchemaErrorModel, Synthesizer, TypeDeclaration};
use vstd::prelude::*;

verus! {

/// The directives that annotate a type as a whole.
#[derive(Clone, Copy, Debug, PartialEq, Eq, Structural)]
pub enum TypeLevel {
    Table,
    Author,
}

/// The directives that annotate one field.
#[derive(Clone, Copy, Debug, PartialEq, Eq, Structural)]
pub enum FieldLevel {
    Column,
    FieldAuthor,
}

/// How often a directive occurs.
#[derive(Clone, Copy, Debug, PartialEq, Eq, Structural)]
pub enum Occurrence {
    Missing,
    /// Once, at this position.
    Once(usize),
    Repeated,
}

impl TypeLevel {
    /// The fault of a type that lacks the directive.
    pub open spec fn missing_fault(self) -> Fault {
        match self {
            TypeLevel::Table => Fault::MissingTable,
            TypeLevel::Author => Fault::MissingAuthor,
        }
    }

    /// The fault of a type that carries the directive more than once.
    pub open spec fn duplicate_fault(self) -> Fault {
        match self {
            TypeLevel::Table => Fault::DuplicateTable,
            TypeLevel::Author => Fault::DuplicateAuthor,
        }
    }
}

impl FieldLevel {
    /// The fault of a directive that names a field which is not declared.
    pub open spec fn unknown_fault(self) -> Fault {
        match self {
            FieldLevel::Column => Fault::UnknownColumnField,
            FieldLevel::FieldAuthor => Fault::UnknownAuthorField,
        }
    }

    /// The fault of a field that carries the directive more than once.
    pub open spec fn duplicate_fault(self) -> Fault {
        match self {
            FieldLevel::Column => Fault::DuplicateColumn,
            FieldLevel::FieldAuthor => Fault::DuplicateFieldAuthor,
        }
    }
}

impl Directive {
    /// Which type-level directive this is, if it is one.
    pub open spec fn type_level(self) -> Option<TypeLevel> {
        match self {
            Directive::Table(_) => Some(TypeLevel::Table),
            Directive::Author(_) => Some(TypeLevel::Author),
            _ => None,
        }
    }

    /// Which field-level directive this is, if it is one.
    pub open spec fn field_level(self) -> Option<FieldLevel> {
        match self {
            Directive::Column(_) => Some(FieldLevel::Column),
            Directive::FieldAuthor(_) => Some(FieldLevel::FieldAuthor),
            _ => None,
        }
    }

    /// The field that a field-level directive names.
    pub open spec fn target(self) -> Seq<char> {
        match self {
            Directive::Column(column) => column.field_name@,
            Directive::FieldAuthor(author) => author.field_name@,
            _ => Seq::empty(),
        }
    }

    /// This is the directive `level` on the field `field`.
    pub open spec fn annotates(self, level: FieldLevel, field: Seq<char>) -> bool {
        self.field_level() == Some(level) && self.target() == field
    }

    /// Whether this is the type-level directive `level`.
    pub fn is_type_level(&self, level: TypeLevel) -> (yes: bool)
        ensures
            yes == (self.type_level() == Some(level)),
    {
        match self {
            Directive::Table(_) => level == TypeLevel::Table,
            Directive::Author(_) => level == TypeLevel::Author,
            _ => false,
        }
    }

    /// The field that this directive names, if it is the field-level
    /// directive `level`.
    pub fn names_field(&self, level: FieldLevel) -> (field: Option<&String>)
        ensures
            field is Some <==> self.field_level() == Some(level),
            field matches Some(name) ==> name@ == self.target(),
    {
        match self {
            Directive::Column(column) => if level == FieldLevel::Column {
                Some(&column.field_name)
            } else {
                None
            },
            Directive::FieldAuthor(author) => if level == FieldLevel::FieldAuthor {
                Some(&author.field_name)
            } else {
                None
            },
            _ => None,
        }
    }
}

/// No directive is the type-level directive `level`.
pub open spec fn absent(directives: Seq<Directive>, level: TypeLevel) -> bool {
    forall|k: int| 0 <= k < directives.len() ==> (#[trigger] directives[k]).type_level() != Some(level)
}

/// At least two directives are the type-level directive `level`.
pub open spec fn repeated(directives: Seq<Directive>, level: TypeLevel) -> bool {
    exists|j: int, k: int|
        0 <= j < k < directives.len() && (#[trigger] directives[j]).type_level() == Some(level) && (
        #[trigger] directives[k]).type_level() == Some(level)
}

/// Position `k` holds the first type-level directive `level`.
pub open spec fn first_of(directives: Seq<Directive>, level: TypeLevel, k: int) -> bool {
    &&& 0 <= k < directives.len()
    &&& directives[k].type_level() == Some(level)
    &&& forall|j: int| 0 <= j < k ==> (#[trigger] directives[j]).type_level() != Some(level)
}

/// The error with which a type is refused for its type-level directive
/// `level`: the directive is missing, or it occurs more than once.
pub open spec fn type_refusal(
    synthesizer: Synthesizer,
    owner: Seq<char>,
    directives: Seq<Directive>,
    level: TypeLevel,
) -> Option<SchemaErrorModel> {
    if absent(directives, level) {
        Some(SchemaErrorModel { synthesizer, fault: level.missing_fault(), owner, subject: owner })
    } else if repeated(directives, level) {
        Some(SchemaErrorModel { synthesizer, fault: level.duplicate_fault(), owner, subject: owner })
    } else {
        None
    }
}

/// Finds the one type-level directive `level` among `directives`. A type
/// without it, and a type with more than one, are refused.
pub fn type_directive(
    synthesizer: Synthesizer,
    owner: &String,
    directives: &Vec<Directive>,
    level: TypeLevel,
) -> (outcome: Result<usize, SchemaError>)
    ensures
        outcome is Err <==> type_refusal(synthesizer, owner@, directives@, level) is Some,
        outcome matches Err(error) ==> Some(error@) == type_refusal(
            synthesizer,
            owner@,
            directives@,
            level,
        ),
        outcome matches Ok(k) ==> first_of(directives@, level, k as int),
{
    let mut found: Option<usize> = None;
    let mut k: usize = 0;
    while k < directives.len()
        invariant
            k <= directives.len(),
            match found {
                None => forall|j: int|
                    0 <= j < k ==> (#[trigger] directives@[j]).type_level() != Some(level),
                Some(first) => first < k && first_of(directives@, level, first as int) && forall|
                    j: int,
                |
                    first < j < k ==> (#[trigger] directives@[j]).type_level() != Some(level),
            },
        decreases directives.len() - k,
    {
        if directives[k].is_type_level(level) {
            match found {
                Some(first) => {
                    assert(directives@[first as int].type_level() == Some(level)
                        && directives@[k as int].type_level() == Some(level));
                    let fault = match level {
                        TypeLevel::Table => Fault::DuplicateTable,
                        TypeLevel::Author => Fault::DuplicateAuthor,
                    };
                    return Err(SchemaError::new(synthesizer, fault, owner, owner));
                },
                None => {
                    found = Some(k);
                },
            }
        }
        k += 1;
    }
    match found {
        None => {
            let fault = match level {
                TypeLevel::Table => Fault::MissingTable,
                TypeLevel::Author => Fault::MissingAuthor,
            };
            Err(SchemaError::new(synthesizer, fault, owner, owner))
        },
        Some(first) => {
            assert(directives@[first as int].type_level() == Some(level));
            Ok(first)
        },
    }
}

/// A field named `name` is declared.
pub open spec fn declared(fields: Seq<FieldDecl>, name: Seq<char>) -> bool {
    exists|i: int| 0 <= i < fields.len() && (#[trigger] fields[i]).name@ == name
}

/// The directive is the field-level directive `level` and names a field that
/// is not declared.
pub open spec fn dangles(fields: Seq<FieldDecl>, directive: Directive, level: FieldLevel) -> bool {
    directive.field_level() == Some(level) && !declared(fields, directive.target())
}

/// Position `k` holds the first directive `level` that names a field which
/// is not declared.
pub open spec fn first_dangling(
    fields: Seq<FieldDecl>,
    directives: Seq<Directive>,
    level: FieldLevel,
    k: int,
) -> bool {
    &&& 0 <= k < directives.len()
    &&& dangles(fields, directives[k], level)
    &&& forall|j: int| 0 <= j < k ==> !dangles(fields, #[trigger] directives[j], level)
}

/// No directive is the directive `level` on `field`.
pub open spec fn unannotated(directives: Seq<Directive>, level: FieldLevel, field: Seq<char>) -> bool {
    forall|k: int| 0 <= k < directives.len() ==> !(#[trigger] directives[k]).annotates(level, field)
}

/// At least two directives are the directive `level` on `field`.
pub open spec fn overannotated(directives: Seq<Directive>, level: FieldLevel, field: Seq<char>) -> bool {
    exists|j: int, k: int|
        0 <= j < k < directives.len() && (#[trigger] directives[j]).annotates(level, field) && (
        #[trigger] directives[k]).annotates(level, field)
}

/// Position `k` holds the first directive `level` on `field`.
pub open spec fn first_for(
    directives: Seq<Directive>,
    level: FieldLevel,
    field: Seq<char>,
    k: int,
) -> bool {
    &&& 0 <= k < directives.len()
    &&& directives[k].annotates(level, field)
    &&& forall|j: int| 0 <= j < k ==> !(#[trigger] directives[j]).annotates(level, field)
}

/// Field `i` is the first that carries the directive `level` more than once.
pub open spec fn first_overannotated(
    fields: Seq<FieldDecl>,
    directives: Seq<Directive>,
    level: FieldLevel,
    i: int,
) -> bool {
    &&& 0 <= i < fields.len()
    &&& overannotated(directives, level, fields[i].name@)
    &&& forall|j: int| 0 <= j < i ==> !overannotated(directives, level, (#[trigger] fields[j]).name@)
}

/// The error with which a type is refused for its field-level directives
/// `level`: the first directive that names an undeclared field; else the
/// first field that carries the directive more than once.
pub open spec fn field_refusal(
    synthesizer: Synthesizer,
    owner: Seq<char>,
    fields: Seq<FieldDecl>,
    directives: Seq<Directive>,
    level: FieldLevel,
) -> Option<SchemaErrorModel> {
    if exists|k: int| first_dangling(fields, directives, level, k) {
        let k = choose|k: int| first_dangling(fields, directives, level, k);
        Some(
            SchemaErrorModel {
                synthesizer,
                fault: level.unknown_fault(),
                owner,
                subject: directives[k].target(),
            },
        )
    } else if exists|i: int| first_overannotated(fields, directives, level, i) {
        let i = choose|i: int| first_overannotated(fields, directives, level, i);
        Some(
            SchemaErrorModel {
                synthesizer,
                fault: level.duplicate_fault(),
                owner,
                subject: fields[i].name@,
            },
        )
    } else {
        None
    }
}

/// What `slot` says of a field: the position of the first directive `level`
/// on it, or that there is none.
pub open spec fn slot_of(
    directives: Seq<Directive>,
    level: FieldLevel,
    field: Seq<char>,
    slot: Option<usize>,
) -> bool {
    match slot {
        Some(k) => first_for(directives, level, field, k as int),
        None => unannotated(directives, level, field),
    }
}

/// A type-level directive has at most one first position.
pub proof fn lemma_first_of_unique(directives: Seq<Directive>, level: TypeLevel, j: int, k: int)
    requires
        first_of(directives, level, j),
        first_of(directives, level, k),
    ensures
        j == k,
{
    if j < k {
        assert(directives[j].type_level() != Some(level));
    } else if k < j {
        assert(directives[k].type_level() != Some(level));
    }
}

/// The directive on a field has at most one first position.
pub proof fn lemma_first_for_unique(
    directives: Seq<Directive>,
    level: FieldLevel,
    field: Seq<char>,
    j: int,
    k: int,
)
    requires
        first_for(directives, level, field, j),
        first_for(directives, level, field, k),
    ensures
        j == k,
{
    if j < k {
        assert(!directives[j].annotates(level, field));
    } else if k < j {
        assert(!directives[k].annotates(level, field));
    }
}

proof fn lemma_first_dangling_unique(
    fields: Seq<FieldDecl>,
    directives: Seq<Directive>,
    level: FieldLevel,
    j: int,
    k: int,
)
    requires
        first_dangling(fields, directives, level, j),
        first_dangling(fields, directives, level, k),
    ensures
        j == k,
{
    if j < k {
        assert(!dangles(fields, directives[j], level));
    } else if k < j {
        assert(!dangles(fields, directives[k], level));
    }
}

proof fn lemma_first_overannotated_unique(
    fields: Seq<FieldDecl>,
    directives: Seq<Directive>,
    level: FieldLevel,
    i: int,
    j: int,
)
    requires
        first_overannotated(fields, directives, level, i),
        first_overannotated(fields, directives, level, j),
    ensures
        i == j,
{
    if i < j {
        assert(!overannotated(directives, level, fields[i].name@));
    } else if j < i {
        assert(!overannotated(directives, level, fields[j].name@));
    }
}

/// Whether a field named `name` is declared.
pub fn is_declared(fields: &Vec<FieldDecl>, name: &String) -> (yes: bool)
    ensures
        yes == declared(fields@, name@),
{
    let mut i: usize = 0;
    while i < fields.len()
        invariant
            i <= fields.len(),
            forall|j: int| 0 <= j < i ==> (#[trigger] fields@[j]).name@ != name@,
        decreases fields.len() - i,
    {
        if fields[i].name == *name {
            return true;
        }
        i += 1;
    }
    false
}

/// How often the directive `level` occurs on the field `field`, and where it
/// occurs first.
pub fn field_occurrence(directives: &Vec<Directive>, level: FieldLevel, field: &String) -> (found:
    Occurrence)
    ensures
        match found {
            Occurrence::Missing => unannotated(directives@, level, field@),
            Occurrence::Once(k) => first_for(directives@, level, field@, k as int) && !overannotated(
                directives@,
                level,
                field@,
            ),
            Occurrence::Repeated => overannotated(directives@, level, field@),
        },
{
    let mut found: Option<usize> = None;
    let mut k: usize = 0;
    while k < directives.len()
        invariant
            k <= directives.len(),
            match found {
                None => forall|j: int|
                    0 <= j < k ==> !(#[trigger] directives@[j]).annotates(level, field@),
                Some(first) => first < k && first_for(directives@, level, field@, first as int)
                    && forall|j: int|
                    first < j < k ==> !(#[trigger] directives@[j]).annotates(level, field@),
            },
        decreases directives.len() - k,
    {
        let annotates = match directives[k].names_field(level) {
            Some(name) => *name == *field,
            None => false,
        };
        if annotates {
            match found {
                Some(first) => {
                    assert(directives@[first as int].annotates(level, field@) && directives@[k as int].annotates(
                        level,
                        field@,
                    ));
                    return Occurrence::Repeated;
                },
                None => {
                    found = Some(k);
                },
            }
        }
        k += 1;
    }
    match found {
        None => Occurrence::Missing,
        Some(first) => Occurrence::Once(first),
    }
}

/// Finds, for each field in declaration order, the position of its directive
/// `level`, if it has one. A directive that names an undeclared field, and a
/// field with more than one directive, are refused.
pub fn field_directives(
    synthesizer: Synthesizer,
    owner: &String,
    fields: &Vec<FieldDecl>,
    directives: &Vec<Directive>,
    level: FieldLevel,
) -> (outcome: Result<Vec<Option<usize>>, SchemaError>)
    ensures
        outcome is Err <==> field_refusal(synthesizer, owner@, fields@, directives@, level) is Some,
        outcome matches Err(error) ==> Some(error@) == field_refusal(
            synthesizer,
            owner@,
            fields@,
            directives@,
            level,
        ),
        outcome matches Ok(slots) ==> slots.len() == fields.len() && forall|i: int|
            0 <= i < fields.len() ==> slot_of(
                directives@,
                level,
                fields@[i].name@,
                #[trigger] slots@[i],
            ),
{
    let mut k: usize = 0;
    while k < directives.len()
        invariant
            k <= directives.len(),
            forall|j: int| 0 <= j < k ==> !dangles(fields@, #[trigger] directives@[j], level),
        decreases directives.len() - k,
    {
        match directives[k].names_field(level) {
            Some(name) => {
                if !is_declared(fields, name) {
                    proof {
                        assert(first_dangling(fields@, directives@, level, k as int));
                        let first = choose|first: int|
                            first_dangling(fields@, directives@, level, first);
                        lemma_first_dangling_unique(fields@, directives@, level, k as int, first);
                    }
                    let fault = match level {
                        FieldLevel::Column => Fault::UnknownColumnField,
                        FieldLevel::FieldAuthor => Fault::UnknownAuthorField,
                    };
                    return Err(SchemaError::new(synthesizer, fault, owner, name));
                }
            },
            None => {},
        }
        k += 1;
    }
    assert(forall|j: int| !first_dangling(fields@, directives@, level, j));
    let mut slots: Vec<Option<usize>> = Vec::new();
    let mut i: usize = 0;
    while i < fields.len()
        invariant
            i <= fields.len(),
            slots.len() == i,
            forall|j: int| !first_dangling(fields@, directives@, level, j),
            forall|j: int|
                0 <= j < i ==> !overannotated(directives@, level, (#[trigger] fields@[j]).name@),
            forall|j: int|
                0 <= j < i ==> slot_of(directives@, level, fields@[j].name@, #[trigger] slots@[j]),
        decreases fields.len() - i,
    {
        match field_occurrence(directives, level, &fields[i].name) {
            Occurrence::Repeated => {
                proof {
                    assert(first_overannotated(fields@, directives@, level, i as int));
                    let first = choose|first: int|
                        first_overannotated(fields@, directives@, level, first);
                    lemma_first_overannotated_unique(fields@, directives@, level, i as int, first);
                }
                let fault = match level {
                    FieldLevel::Column => Fault::DuplicateColumn,
                    FieldLevel::FieldAuthor => Fault::DuplicateFieldAuthor,
                };
                return Err(SchemaError::new(synthesizer, fault, owner, &fields[i].name));
            },
            Occurrence::Once(k) => {
                slots.push(Some(k));
            },
            Occurrence::Missing => {
                slots.push(None);
            },
        }
        i += 1;
    }
    assert(forall|j: int| !first_overannotated(fields@, directives@, level, j));
    Ok(slots)
}

/// The error with which a synthesizer that takes structs refuses an enum.
pub open spec fn struct_refusal(synthesizer: Synthesizer, decl: TypeDeclaration) -> Option<
    SchemaErrorModel,
> {
    if decl is Enum {
        Some(
            SchemaErrorModel {
                synthesizer,
                fault: Fault::EnumNotSupported,
                owner: decl.name_text(),
                subject: decl.name_text(),
            },
        )
    } else {
        None
    }
}

/// The fields of a struct. An enum is refused.
pub fn struct_fields(synthesizer: Synthesizer, decl: &TypeDeclaration) -> (outcome: Result<
    &Vec<FieldDecl>,
    SchemaError,
>)
    ensures
        outcome is Err <==> struct_refusal(synthesizer, *decl) is Some,
        outcome matches Err(error) ==> Some(error@) == struct_refusal(synthesizer, *decl),
        outcome matches Ok(fields) ==> fields@ == decl.field_decls(),
{
    match decl {
        TypeDeclaration::Struct { fields, .. } => Ok(fields),
        TypeDeclaration::Enum { name, .. } => Err(
            SchemaError::new(synthesizer, Fault::EnumNotSupported, name, name),
        ),
    }
}

} // verus!
