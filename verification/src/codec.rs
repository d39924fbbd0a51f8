//! The enum codec: case-insensitive parsing with a default, canonical
//! rendering, and the bindings to storage and serialization.

use crate::model::{
    texts, Fault, Payload, SchemaError, SchemaErrorModel, Synthesizer, TypeDeclaration, VariantDecl,
};
use crate::text::{decode_text, lowercase, to_lower, to_upper, uppercase};
use std::borrow::Cow;
use vstd::prelude::*;
use vstd::slice::slice_to_vec;
use vstd::string::StrSliceExecFns;
use vstd::utf8::{decode_utf8, encode_utf8, valid_utf8};

verus! {

/// A codec as contracts speak of it: the enum's name, the declared names of
/// its variants in order, and the index of the default variant. A variant is
/// its index in `names`.
pub struct CodecModel {
    pub enum_name: Seq<char>,
    pub names: Seq<Seq<char>>,
    pub default_variant: int,
}

impl CodecModel {
    /// The default is one of the variants.
    pub open spec fn wf(self) -> bool {
        self.has_variant(self.default_variant)
    }

    pub open spec fn has_variant(self, v: int) -> bool {
        0 <= v < self.names.len()
    }

    /// `text` reads as variant `v`: lowercased, the text and the variant's
    /// name are the same.
    pub open spec fn reads_as(self, text: Seq<char>, v: int) -> bool {
        self.has_variant(v) && lowercase(self.names[v]) == lowercase(text)
    }

    /// `text` reads as some variant.
    pub open spec fn recognizes(self, text: Seq<char>) -> bool {
        exists|v: int| self.reads_as(text, v)
    }

    /// `v` is the first variant, in declaration order, that `text` reads as.
    pub open spec fn first_reading(self, text: Seq<char>, v: int) -> bool {
        self.reads_as(text, v) && forall|u: int| 0 <= u < v ==> !self.reads_as(text, u)
    }

    /// The variant that `text` stands for: the first one it reads as, and the
    /// default where it reads as none.
    pub open spec fn parse(self, text: Seq<char>) -> int {
        if self.recognizes(text) {
            choose|v: int| self.first_reading(text, v)
        } else {
            self.default_variant
        }
    }

    /// The variant that an optional text stands for: the default where the
    /// text is absent.
    pub open spec fn parse_optional(self, text: Option<Seq<char>>) -> int {
        match text {
            Some(text) => self.parse(text),
            None => self.default_variant,
        }
    }

    /// The canonical form of variant `v`: its name in uppercase.
    pub open spec fn render(self, v: int) -> Seq<char> {
        uppercase(self.names[v])
    }

    /// No variant declared before `v` reads the same as `v`.
    pub open spec fn leads_its_reading(self, v: int) -> bool {
        forall|u: int| 0 <= u < v ==> lowercase(#[trigger] self.names[u]) != lowercase(self.names[v])
    }

    /// Raising the name of `v` to uppercase does not change how it reads.
    pub open spec fn case_stable(self, v: int) -> bool {
        lowercase(uppercase(self.names[v])) == lowercase(self.names[v])
    }

    /// Variant `v` is faithful: its name reads the same in uppercase, and no
    /// earlier variant reads like it.
    pub open spec fn faithful(self, v: int) -> bool {
        self.case_stable(v) && self.leads_its_reading(v)
    }

    /// Variant `v` comes back from its canonical form: it is faithful, or it
    /// is the default and its canonical form reads as no variant.
    pub open spec fn round_trips(self, v: int) -> bool {
        self.faithful(v) || (v == self.default_variant && !self.recognizes(self.render(v)))
    }

    /// Every variant is faithful.
    pub open spec fn canonical(self) -> bool {
        forall|v: int| self.has_variant(v) ==> self.faithful(v)
    }
}

/// A text has at most one first reading.
pub proof fn lemma_first_reading_unique(codec: CodecModel, text: Seq<char>, v: int, w: int)
    requires
        codec.first_reading(text, v),
        codec.first_reading(text, w),
    ensures
        v == w,
{
    if v < w {
        assert(!codec.reads_as(text, v));
    } else if w < v {
        assert(!codec.reads_as(text, w));
    }
}

/// A text stands for the first variant it reads as.
pub proof fn lemma_parse_first_reading(codec: CodecModel, text: Seq<char>, v: int)
    requires
        codec.first_reading(text, v),
    ensures
        codec.parse(text) == v,
{
    assert(codec.reads_as(text, v));
    let w = choose|w: int| codec.first_reading(text, w);
    lemma_first_reading_unique(codec, text, v, w);
}

/// A text that reads as some variant has a first reading.
pub proof fn lemma_first_reading_exists(codec: CodecModel, text: Seq<char>, v: int)
    requires
        codec.reads_as(text, v),
    ensures
        exists|w: int| 0 <= w <= v && codec.first_reading(text, w),
    decreases v,
{
    if exists|u: int| 0 <= u < v && codec.reads_as(text, u) {
        let u = choose|u: int| 0 <= u < v && codec.reads_as(text, u);
        lemma_first_reading_exists(codec, text, u);
    } else {
        assert(codec.first_reading(text, v));
    }
}

/// Round trip through the canonical form: parsing what a variant renders as
/// gives the variant back. This holds of a faithful variant, one whose name
/// reads the same in uppercase and that no earlier variant reads like, and
/// of the default variant where its canonical form reads as no variant.
pub proof fn law_round_trip(codec: CodecModel, v: int)
    requires
        codec.has_variant(v),
        codec.round_trips(v),
    ensures
        codec.parse(codec.render(v)) == v,
{
    if codec.faithful(v) {
        law_case_insensitive(codec, v, codec.render(v));
    }
}

/// The round trip holds of no other variant: one that is neither faithful
/// nor a default whose canonical form goes unrecognized comes back as
/// another variant.
pub proof fn lemma_round_trip_only(codec: CodecModel, v: int)
    requires
        codec.has_variant(v),
        !codec.round_trips(v),
    ensures
        codec.parse(codec.render(v)) != v,
{
    let text = codec.render(v);
    if codec.recognizes(text) {
        let u = choose|u: int| codec.reads_as(text, u);
        lemma_first_reading_exists(codec, text, u);
        let w = choose|w: int| codec.first_reading(text, w);
        lemma_parse_first_reading(codec, text, w);
        if w == v {
            assert(codec.case_stable(v));
            assert forall|u: int| 0 <= u < v implies lowercase(#[trigger] codec.names[u]) != lowercase(
                codec.names[v],
            ) by {
                assert(!codec.reads_as(text, u));
            }
            assert(codec.faithful(v));
        }
    }
}

/// Case-insensitivity: a text that equals a variant's name once both are
/// lowercased parses as that variant, provided that no earlier variant reads
/// the same.
pub proof fn law_case_insensitive(codec: CodecModel, v: int, text: Seq<char>)
    requires
        codec.has_variant(v),
        codec.leads_its_reading(v),
        lowercase(text) == lowercase(codec.names[v]),
    ensures
        codec.parse(text) == v,
{
    assert forall|u: int| 0 <= u < v implies !codec.reads_as(text, u) by {
        assert(lowercase(codec.names[u]) != lowercase(codec.names[v]));
    }
    lemma_parse_first_reading(codec, text, v);
}

/// Case-insensitivity holds of no other variant: where an earlier variant
/// reads the same, the text parses as the earliest one.
pub proof fn lemma_case_insensitive_only(codec: CodecModel, v: int, text: Seq<char>)
    requires
        codec.has_variant(v),
        !codec.leads_its_reading(v),
        lowercase(text) == lowercase(codec.names[v]),
    ensures
        codec.parse(text) < v,
{
    let u = choose|u: int|
        0 <= u < v && lowercase(#[trigger] codec.names[u]) == lowercase(codec.names[v]);
    assert(codec.reads_as(text, u));
    lemma_first_reading_exists(codec, text, u);
    let w = choose|w: int| 0 <= w <= u && codec.first_reading(text, w);
    lemma_parse_first_reading(codec, text, w);
}

/// Defaulting: a text that reads as no variant parses as the default.
pub proof fn law_defaulting(codec: CodecModel, text: Seq<char>)
    requires
        !codec.recognizes(text),
    ensures
        codec.parse(text) == codec.default_variant,
{
}

/// Rendering is injective: two variants that read differently, and whose
/// names read the same in uppercase as they do as declared, render
/// differently.
pub proof fn law_render_injective(codec: CodecModel, v: int, w: int)
    requires
        codec.has_variant(v),
        codec.has_variant(w),
        codec.case_stable(v),
        codec.case_stable(w),
        lowercase(codec.names[v]) != lowercase(codec.names[w]),
    ensures
        codec.render(v) != codec.render(w),
{
}

/// Variant `i` is the first that carries a payload.
pub open spec fn first_payload(variants: Seq<VariantDecl>, i: int) -> bool {
    &&& 0 <= i < variants.len()
    &&& variants[i].payload != Payload::Unit
    &&& forall|j: int| 0 <= j < i ==> (#[trigger] variants[j]).payload == Payload::Unit
}

/// No variant carries a payload.
pub open spec fn all_unit(variants: Seq<VariantDecl>) -> bool {
    forall|i: int| 0 <= i < variants.len() ==> (#[trigger] variants[i]).payload == Payload::Unit
}

/// `i` is the first position of `name` in `names`.
pub open spec fn first_named(names: Seq<Seq<char>>, name: Seq<char>, i: int) -> bool {
    &&& 0 <= i < names.len()
    &&& names[i] == name
    &&& forall|j: int| 0 <= j < i ==> #[trigger] names[j] != name
}

/// `name` is one of `names`.
pub open spec fn declares(names: Seq<Seq<char>>, name: Seq<char>) -> bool {
    exists|i: int| 0 <= i < names.len() && #[trigger] names[i] == name
}

/// The error with which codec synthesis refuses a declaration, if it does:
/// a struct; else the first variant with a payload; else a default that is
/// not declared.
pub open spec fn codec_refusal(decl: TypeDeclaration, default_variant: Seq<char>) -> Option<
    SchemaErrorModel,
> {
    let owner = decl.name_text();
    let variants = decl.variant_decls();
    if decl is Struct {
        Some(
            SchemaErrorModel {
                synthesizer: Synthesizer::SetEnum,
                fault: Fault::StructNotSupported,
                owner,
                subject: owner,
            },
        )
    } else if !all_unit(variants) {
        let i = choose|i: int| first_payload(variants, i);
        Some(
            SchemaErrorModel {
                synthesizer: Synthesizer::SetEnum,
                fault: variants[i].payload.fault()->0,
                owner,
                subject: variants[i].name@,
            },
        )
    } else if !declares(decl.variant_names(), default_variant) {
        Some(
            SchemaErrorModel {
                synthesizer: Synthesizer::SetEnum,
                fault: Fault::UnknownDefaultVariant,
                owner,
                subject: default_variant,
            },
        )
    } else {
        None
    }
}

/// The codec that synthesis builds from an enum of unit variants whose
/// default is declared.
pub open spec fn codec_of(decl: TypeDeclaration, default_variant: Seq<char>) -> CodecModel {
    CodecModel {
        enum_name: decl.name_text(),
        names: decl.variant_names(),
        default_variant: choose|i: int| first_named(decl.variant_names(), default_variant, i),
    }
}

proof fn lemma_first_payload_unique(variants: Seq<VariantDecl>, i: int, j: int)
    requires
        first_payload(variants, i),
        first_payload(variants, j),
    ensures
        i == j,
{
    if i < j {
        assert(variants[i].payload == Payload::Unit);
    } else if j < i {
        assert(variants[j].payload == Payload::Unit);
    }
}

proof fn lemma_first_named_unique(names: Seq<Seq<char>>, name: Seq<char>, i: int, j: int)
    requires
        first_named(names, name, i),
        first_named(names, name, j),
    ensures
        i == j,
{
    if i < j {
        assert(names[i] != name);
    } else if j < i {
        assert(names[j] != name);
    }
}

/// The first position of `key` in `table`, if it occurs there.
pub fn position(table: &Vec<String>, key: &String) -> (found: Option<usize>)
    ensures
        found is Some <==> declares(texts(table@), key@),
        found matches Some(i) ==> first_named(texts(table@), key@, i as int),
{
    let mut i: usize = 0;
    while i < table.len()
        invariant
            i <= table.len(),
            forall|j: int| 0 <= j < i ==> #[trigger] texts(table@)[j] != key@,
        decreases table.len() - i,
    {
        if table[i] == *key {
            assert(texts(table@)[i as int] == key@);
            return Some(i);
        }
        i += 1;
    }
    None
}

/// Entry `i` of the folded names is faithful: folding the canonical form
/// again gives the same text, and no earlier entry equals it.
pub open spec fn faithful_entry(folded: Seq<Seq<char>>, refolded: Seq<Seq<char>>, i: int) -> bool {
    &&& refolded[i] == folded[i]
    &&& forall|j: int| 0 <= j < i ==> #[trigger] folded[j] != folded[i]
}

/// Whether every entry of the folded names is faithful. `folded` holds the
/// names folded to lowercase, `refolded` their canonical forms folded again.
pub fn is_faithful_table(folded: &Vec<String>, refolded: &Vec<String>) -> (yes: bool)
    ensures
        yes == (folded.len() == refolded.len() && forall|i: int|
            0 <= i < folded.len() ==> faithful_entry(texts(folded@), texts(refolded@), i)),
{
    if folded.len() != refolded.len() {
        return false;
    }
    let mut i: usize = 0;
    while i < folded.len()
        invariant
            i <= folded.len(),
            folded.len() == refolded.len(),
            forall|k: int| 0 <= k < i ==> faithful_entry(texts(folded@), texts(refolded@), k),
        decreases folded.len() - i,
    {
        if !(refolded[i] == folded[i]) {
            assert(!faithful_entry(texts(folded@), texts(refolded@), i as int));
            return false;
        }
        let mut j: usize = 0;
        while j < i
            invariant
                j <= i,
                i < folded.len(),
                forall|k: int| 0 <= k < j ==> #[trigger] texts(folded@)[k] != texts(folded@)[i as int],
            decreases i - j,
        {
            if folded[j] == folded[i] {
                assert(texts(folded@)[j as int] == texts(folded@)[i as int]);
                assert(!faithful_entry(texts(folded@), texts(refolded@), i as int));
                return false;
            }
            j += 1;
        }
        assert(faithful_entry(texts(folded@), texts(refolded@), i as int));
        i += 1;
    }
    true
}

/// The codec of one enum: what generation emits for it.
#[derive(Debug, PartialEq, Eq)]
pub struct EnumCodec {
    enum_name: String,
    names: Vec<String>,
    folded: Vec<String>,
    canonical: Vec<String>,
    default_variant: usize,
}

/// Why stored bytes could not be decoded: the enum they were read for, and
/// the bytes that are no text.
#[derive(Clone, Debug, PartialEq, Eq)]
pub struct DecodeError {
    pub enum_name: String,
    pub raw: Vec<u8>,
}

impl View for EnumCodec {
    type V = CodecModel;

    closed spec fn view(&self) -> CodecModel {
        CodecModel {
            enum_name: self.enum_name@,
            names: Seq::new(self.names@.len(), |i: int| self.names@[i]@),
            default_variant: self.default_variant as int,
        }
    }
}

/// Builds the codec of an enum whose variants are all unit variants, with
/// `default_variant` as the variant that unrecognized text falls back to.
/// A struct, a variant with a payload (the first one is named) and a default
/// that the enum does not declare are refused.
pub fn set_enum_derive_macro(decl: &TypeDeclaration, default_variant: &str) -> (outcome: Result<
    EnumCodec,
    SchemaError,
>)
    ensures
        outcome is Err <==> codec_refusal(*decl, default_variant@) is Some,
        outcome matches Err(error) ==> Some(error@) == codec_refusal(*decl, default_variant@),
        outcome matches Ok(codec) ==> codec@ == codec_of(*decl, default_variant@) && codec@.wf(),
{
    let owner = decl.name();
    match decl {
        TypeDeclaration::Struct { .. } => Err(
            SchemaError::new(Synthesizer::SetEnum, Fault::StructNotSupported, owner, owner),
        ),
        TypeDeclaration::Enum { variants, .. } => {
            let mut names: Vec<String> = Vec::new();
            let mut folded: Vec<String> = Vec::new();
            let mut canonical: Vec<String> = Vec::new();
            let mut i: usize = 0;
            while i < variants.len()
                invariant
                    i <= variants.len(),
                    names.len() == i,
                    folded.len() == i,
                    canonical.len() == i,
                    owner@ == decl.name_text(),
                    decl.variant_decls() == variants@,
                    *decl is Enum,
                    forall|j: int| 0 <= j < i ==> (#[trigger] variants@[j]).payload == Payload::Unit,
                    forall|j: int| 0 <= j < i ==> (#[trigger] names@[j])@ == variants@[j].name@,
                    forall|j: int| 0 <= j < i ==> (#[trigger] folded@[j])@ == lowercase(names@[j]@),
                    forall|j: int|
                        0 <= j < i ==> (#[trigger] canonical@[j])@ == uppercase(names@[j]@),
                decreases variants.len() - i,
            {
                let variant = &variants[i];
                match variant.payload {
                    Payload::Unit => {},
                    Payload::Named => {
                        proof {
                            assert(first_payload(variants@, i as int));
                            let k = choose|k: int| first_payload(variants@, k);
                            lemma_first_payload_unique(variants@, i as int, k);
                        }
                        return Err(
                            SchemaError::new(
                                Synthesizer::SetEnum,
                                Fault::NamedFieldsNotSupported,
                                owner,
                                &variant.name,
                            ),
                        );
                    },
                    Payload::Unnamed => {
                        proof {
                            assert(first_payload(variants@, i as int));
                            let k = choose|k: int| first_payload(variants@, k);
                            lemma_first_payload_unique(variants@, i as int, k);
                        }
                        return Err(
                            SchemaError::new(
                                Synthesizer::SetEnum,
                                Fault::UnnamedFieldsNotSupported,
                                owner,
                                &variant.name,
                            ),
                        );
                    },
                }
                names.push(variant.name.clone());
                folded.push(to_lower(variant.name.as_str()));
                canonical.push(to_upper(variant.name.as_str()));
                i += 1;
            }
            let wanted = default_variant.to_owned();
            assert(decl.variant_names() =~= texts(names@));
            match position(&names, &wanted) {
                Some(found) => {
                    proof {
                        let k = choose|k: int| first_named(decl.variant_names(), wanted@, k);
                        lemma_first_named_unique(decl.variant_names(), wanted@, found as int, k);
                    }
                    let enum_name = owner.clone();
                    Ok(EnumCodec { enum_name, names, folded, canonical, default_variant: found })
                },
                None => Err(
                    SchemaError::new(
                        Synthesizer::SetEnum,
                        Fault::UnknownDefaultVariant,
                        owner,
                        &wanted,
                    ),
                ),
            }
        },
    }
}

impl EnumCodec {
    #[verifier::type_invariant]
    spec fn consistent(self) -> bool {
        &&& self.folded.len() == self.names.len()
        &&& self.canonical.len() == self.names.len()
        &&& self.default_variant < self.names.len()
        &&& forall|i: int|
            0 <= i < self.names.len() ==> (#[trigger] self.folded@[i])@ == lowercase(self.names@[i]@)
        &&& forall|i: int|
            0 <= i < self.names.len() ==> (#[trigger] self.canonical@[i])@ == uppercase(
                self.names@[i]@,
            )
    }

    /// The name of the enum.
    pub fn enum_name(&self) -> (name: &str)
        ensures
            name@ == self@.enum_name,
    {
        self.enum_name.as_str()
    }

    /// The number of variants.
    pub fn len(&self) -> (count: usize)
        ensures
            count == self@.names.len(),
            self@.wf(),
    {
        proof {
            use_type_invariant(self);
        }
        self.names.len()
    }

    /// The variant that unrecognized text falls back to.
    pub fn default_variant(&self) -> (variant: usize)
        ensures
            variant == self@.default_variant,
            self@.has_variant(variant as int),
    {
        proof {
            use_type_invariant(self);
        }
        self.default_variant
    }

    /// The declared name of a variant.
    pub fn variant_name(&self, variant: usize) -> (name: &str)
        requires
            self@.has_variant(variant as int),
        ensures
            name@ == self@.names[variant as int],
    {
        self.names[variant].as_str()
    }

    /// The form under which a variant is looked up: its name in lowercase.
    pub fn folded_name(&self, variant: usize) -> (folded: &str)
        requires
            self@.has_variant(variant as int),
        ensures
            folded@ == lowercase(self@.names[variant as int]),
    {
        proof {
            use_type_invariant(self);
        }
        self.folded[variant].as_str()
    }

    /// The variant that `text` stands for: the first variant whose name
    /// equals `text` once both are lowercased, and the default variant where
    /// there is none. Never fails.
    pub fn parse(&self, text: &str) -> (variant: usize)
        ensures
            variant == self@.parse(text@),
            self@.has_variant(variant as int),
            self@.recognizes(text@) ==> self@.first_reading(text@, variant as int),
            !self@.recognizes(text@) ==> variant == self@.default_variant,
    {
        proof {
            use_type_invariant(self);
        }
        let key = to_lower(text);
        match position(&self.folded, &key) {
            Some(found) => {
                proof {
                    assert forall|u: int| 0 <= u < found implies !self@.reads_as(text@, u) by {
                        assert(texts(self.folded@)[u] != key@);
                    }
                    assert(texts(self.folded@)[found as int] == key@);
                    lemma_parse_first_reading(self@, text@, found as int);
                }
                found
            },
            None => {
                proof {
                    assert forall|v: int| !self@.reads_as(text@, v) by {
                        if self@.has_variant(v) {
                            assert(texts(self.folded@)[v] != key@);
                        }
                    }
                    law_defaulting(self@, text@);
                }
                self.default_variant
            },
        }
    }

    /// The variant that an owned text stands for.
    pub fn parse_owned(&self, text: String) -> (variant: usize)
        ensures
            variant == self@.parse(text@),
            self@.has_variant(variant as int),
    {
        self.parse(text.as_str())
    }

    /// The variant that an optional text stands for: the default variant
    /// where the text is absent.
    pub fn parse_optional(&self, text: Option<&str>) -> (variant: usize)
        ensures
            variant == self@.parse_optional(
                match text {
                    Some(text) => Some(text@),
                    None => None,
                },
            ),
            self@.has_variant(variant as int),
    {
        match text {
            Some(text) => self.parse(text),
            None => self.default_variant(),
        }
    }

    /// The variant that an optional owned text stands for: the default
    /// variant where the text is absent.
    pub fn parse_optional_owned(&self, text: Option<String>) -> (variant: usize)
        ensures
            variant == self@.parse_optional(
                match text {
                    Some(text) => Some(text@),
                    None => None,
                },
            ),
            self@.has_variant(variant as int),
    {
        match text {
            Some(text) => self.parse(text.as_str()),
            None => self.default_variant(),
        }
    }

    /// The variant that a borrowed-or-owned text stands for.
    pub fn parse_cow(&self, text: Cow<'_, str>) -> (variant: usize)
        ensures
            variant == self@.parse(text@),
            self@.has_variant(variant as int),
    {
        match text {
            Cow::Borrowed(text) => self.parse(text),
            Cow::Owned(text) => self.parse(text.as_str()),
        }
    }

    /// The canonical form of a variant: its name in uppercase.
    pub fn render(&self, variant: usize) -> (canonical: &str)
        requires
            self@.has_variant(variant as int),
        ensures
            canonical@ == self@.render(variant as int),
    {
        proof {
            use_type_invariant(self);
        }
        self.canonical[variant].as_str()
    }

    /// The canonical form of a variant as an owned string.
    pub fn to_string(&self, variant: usize) -> (canonical: String)
        requires
            self@.has_variant(variant as int),
        ensures
            canonical@ == self@.render(variant as int),
    {
        proof {
            use_type_invariant(self);
        }
        self.canonical[variant].clone()
    }

    /// Reads a variant from stored bytes: the bytes are taken as UTF-8 text
    /// and parsed. Bytes that are no text are the only failure; text that
    /// names no variant gives the default.
    pub fn decode(&self, raw: &[u8]) -> (outcome: Result<usize, DecodeError>)
        ensures
            valid_utf8(raw@) ==> outcome == Ok::<usize, DecodeError>(
                self@.parse(decode_utf8(raw@)) as usize,
            ),
            valid_utf8(raw@) ==> self@.has_variant(self@.parse(decode_utf8(raw@))),
            !valid_utf8(raw@) ==> (outcome matches Err(error) && error.enum_name@
                == self@.enum_name && error.raw@ == raw@),
    {
        match decode_text(raw) {
            Some(text) => Ok(self.parse(text)),
            None => Err(DecodeError { enum_name: self.enum_name.clone(), raw: slice_to_vec(raw) }),
        }
    }

    /// The bytes under which a variant is stored: its canonical form in
    /// UTF-8. Decoding them reads the canonical form again.
    pub fn encode(&self, variant: usize) -> (raw: Vec<u8>)
        requires
            self@.has_variant(variant as int),
        ensures
            raw@ == encode_utf8(self@.render(variant as int)),
            valid_utf8(raw@),
            decode_utf8(raw@) == self@.render(variant as int),
    {
        proof {
            vstd::utf8::encode_utf8_valid_utf8(self@.render(variant as int));
            vstd::utf8::encode_utf8_decode_utf8(self@.render(variant as int));
        }
        self.render(variant).as_bytes_vec()
    }

    /// Whether every variant is faithful: uppercasing its name does not
    /// change how the name reads, and no earlier variant reads the same.
    /// Where this holds, parsing undoes rendering and no two variants render
    /// alike.
    pub fn is_canonical(&self) -> (yes: bool)
        ensures
            yes == self@.canonical(),
            yes ==> forall|v: int|
                self@.has_variant(v) ==> self@.parse(#[trigger] self@.render(v)) == v,
            yes ==> forall|v: int, w: int|
                self@.has_variant(v) && self@.has_variant(w) && v != w ==> #[trigger] self@.render(v)
                    != #[trigger] self@.render(w),
    {
        proof {
            use_type_invariant(self);
        }
        let mut refolded: Vec<String> = Vec::new();
        let mut i: usize = 0;
        while i < self.canonical.len()
            invariant
                i <= self.canonical.len(),
                refolded.len() == i,
                forall|j: int|
                    0 <= j < i ==> (#[trigger] refolded@[j])@ == lowercase(self.canonical@[j]@),
            decreases self.canonical.len() - i,
        {
            refolded.push(to_lower(self.canonical[i].as_str()));
            i += 1;
        }
        let yes = is_faithful_table(&self.folded, &refolded);
        proof {
            assert forall|v: int| self@.has_variant(v) implies (self@.faithful(v) <==> faithful_entry(
                texts(self.folded@),
                texts(refolded@),
                v,
            )) by {
                assert(texts(refolded@)[v] == lowercase(uppercase(self@.names[v])));
                assert(texts(self.folded@)[v] == lowercase(self@.names[v]));
                if self@.leads_its_reading(v) {
                    assert forall|u: int| 0 <= u < v implies #[trigger] texts(self.folded@)[u] != texts(
                        self.folded@,
                    )[v] by {
                        assert(lowercase(self@.names[u]) != lowercase(self@.names[v]));
                    }
                }
                if faithful_entry(texts(self.folded@), texts(refolded@), v) {
                    assert forall|u: int| 0 <= u < v implies lowercase(#[trigger] self@.names[u])
                        != lowercase(self@.names[v]) by {
                        assert(texts(self.folded@)[u] != texts(self.folded@)[v]);
                    }
                }
            }
        }
        if !yes {
            proof {
                let v = choose|v: int|
                    0 <= v < self.folded.len() && !faithful_entry(
                        texts(self.folded@),
                        texts(refolded@),
                        v,
                    );
                assert(self@.has_variant(v) && !self@.faithful(v));
            }
            return false;
        }
        proof {
            assert forall|v: int| self@.has_variant(v) implies self@.parse(
                #[trigger] self@.render(v),
            ) == v by {
                law_round_trip(self@, v);
            }
            assert forall|v: int, w: int|
                self@.has_variant(v) && self@.has_variant(w) && v != w implies #[trigger] self@.render(
                v,
            ) != #[trigger] self@.render(w) by {
                assert(self@.faithful(v) && self@.faithful(w));
                if v < w {
                    assert(lowercase(self@.names[v]) != lowercase(self@.names[w]));
                } else {
                    assert(lowercase(self@.names[w]) != lowercase(self@.names[v]));
                }
                law_render_injective(self@, v, w);
            }
        }
        true
    }

    /// What a variant is serialized as: its canonical form.
    pub fn serialize(&self, variant: usize) -> (canonical: &str)
        requires
            self@.has_variant(variant as int),
        ensures
            canonical@ == self@.render(variant as int),
    {
        self.render(variant)
    }

    /// Reads a variant from what a deserializer produced: a text is parsed,
    /// and defaults silently where it names no variant; the deserializer's
    /// own failure is handed on.
    pub fn deserialize<E>(&self, text: Result<String, E>) -> (outcome: Result<usize, E>)
        ensures
            match text {
                Ok(text) => outcome == Ok::<usize, E>(self@.parse(text@) as usize)
                    && self@.has_variant(self@.parse(text@)),
                Err(failure) => outcome == Err::<usize, E>(failure),
            },
    {
        match text {
            Ok(text) => Ok(self.parse(text.as_str())),
            Err(failure) => Err(failure),
        }
    }
}

} // verus!
