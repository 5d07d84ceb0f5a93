//! The pet store service: its values and the operations that a store offers.

use crate::json::{member, Json, JsonValue, Member};
use crate::path::{literals_avoid, template_view, Segment, SegmentView};
use crate::service::failure_of;
use crate::text::str_equal;
use crate::wire::Wire;
use vstd::prelude::*;

verus! {

/// What kind of animal a pet is. On the wire a kind is its bare tag: `"dog"`,
/// `"cat"` or `"fish"`.
#[derive(Debug, Clone, Copy, PartialEq, Eq, Structural)]
pub enum PetKind {
    Dog,
    Cat,
    Fish,
}

/// A pet, as a mathematical value.
pub struct PetView {
    pub name: Seq<char>,
    pub age: i32,
    pub kind: PetKind,
}

/// A pet.
#[derive(Debug, PartialEq)]
pub struct Pet {
    pub name: String,
    pub age: i32,
    pub kind: PetKind,
}

impl DeepView for PetKind {
    type V = PetKind;

    open spec fn deep_view(&self) -> PetKind {
        *self
    }
}

impl DeepView for Pet {
    type V = PetView;

    open spec fn deep_view(&self) -> PetView {
        PetView { name: self.name@, age: self.age, kind: self.kind }
    }
}

impl View for Pet {
    type V = PetView;

    open spec fn view(&self) -> PetView {
        self.deep_view()
    }
}

impl Clone for Pet {
    fn clone(&self) -> (copy: Pet)
        ensures
            copy@ == self@,
    {
        Pet { name: self.name.clone(), age: self.age, kind: self.kind }
    }
}

/// The tag of a kind.
pub open spec fn kind_tag(kind: PetKind) -> Seq<char> {
    match kind {
        PetKind::Dog => "dog"@,
        PetKind::Cat => "cat"@,
        PetKind::Fish => "fish"@,
    }
}

/// The three tags are different words.
pub proof fn lemma_kind_tags_differ()
    ensures
        "dog"@ != "cat"@,
        "dog"@ != "fish"@,
        "cat"@ != "fish"@,
{
    reveal_strlit("dog");
    reveal_strlit("cat");
    reveal_strlit("fish");
    assert("dog"@[0] == 'd');
    assert("cat"@[0] == 'c');
    assert("fish"@.len() == 4);
}

impl Wire for PetKind {
    open spec fn encoding(value: PetKind) -> Json {
        Json::String(kind_tag(value))
    }

    open spec fn decoding(doc: Json) -> Option<PetKind> {
        match doc {
            Json::String(tag) => if tag == "dog"@ {
                Some(PetKind::Dog)
            } else if tag == "cat"@ {
                Some(PetKind::Cat)
            } else if tag == "fish"@ {
                Some(PetKind::Fish)
            } else {
                None
            },
            _ => None,
        }
    }

    fn to_json(&self) -> (doc: JsonValue) {
        let tag = match self {
            PetKind::Dog => "dog",
            PetKind::Cat => "cat",
            PetKind::Fish => "fish",
        };
        JsonValue::String(tag.to_owned())
    }

    fn from_json(doc: &JsonValue) -> (value: Option<PetKind>) {
        match doc {
            JsonValue::String(tag) => {
                if str_equal(tag.as_str(), "dog") {
                    Some(PetKind::Dog)
                } else if str_equal(tag.as_str(), "cat") {
                    Some(PetKind::Cat)
                } else if str_equal(tag.as_str(), "fish") {
                    Some(PetKind::Fish)
                } else {
                    None
                }
            },
            _ => None,
        }
    }

    proof fn lemma_round_trip(value: PetKind) {
        lemma_kind_tags_differ();
    }
}

/// The members of the object that stands for a pet.
pub open spec fn pet_members(pet: PetView) -> Seq<(Seq<char>, Json)> {
    seq![
        ("name"@, Json::String(pet.name)),
        ("age"@, Json::Integer(pet.age as int)),
        ("kind"@, Json::String(kind_tag(pet.kind))),
    ]
}

/// The three member names are different words.
pub proof fn lemma_member_names_differ()
    ensures
        "name"@ != "age"@,
        "name"@ != "kind"@,
        "age"@ != "kind"@,
{
    reveal_strlit("name");
    reveal_strlit("age");
    reveal_strlit("kind");
    assert("name"@[0] == 'n');
    assert("kind"@[0] == 'k');
    assert("age"@.len() == 3);
}

/// A pet is sent as an object with the members `name`, `age` and `kind`, in
/// this order. A document stands for a pet where it is an object whose first
/// members of these names hold a string, a 32-bit integer and a kind; other
/// members are passed over.
impl Wire for Pet {
    open spec fn encoding(value: PetView) -> Json {
        Json::Object(pet_members(value))
    }

    open spec fn decoding(doc: Json) -> Option<PetView> {
        match (doc.field("name"@), doc.field("age"@), doc.field("kind"@)) {
            (Some(name), Some(age), Some(kind)) => match (
                String::decoding(name),
                i32::decoding(age),
                PetKind::decoding(kind),
            ) {
                (Some(name), Some(age), Some(kind)) => Some(PetView { name, age, kind }),
                _ => None,
            },
            _ => None,
        }
    }

    fn to_json(&self) -> (doc: JsonValue) {
        let mut members: Vec<Member> = Vec::new();
        members.push(Member { key: "name".to_owned(), value: self.name.to_json() });
        members.push(Member { key: "age".to_owned(), value: self.age.to_json() });
        members.push(Member { key: "kind".to_owned(), value: self.kind.to_json() });
        let doc = JsonValue::Object(members);
        assert(doc@->Object_0 =~= pet_members(self@));
        doc
    }

    fn from_json(doc: &JsonValue) -> (value: Option<Pet>) {
        let name = match doc.get("name") {
            Some(field) => String::from_json(field),
            None => None,
        };
        let age = match doc.get("age") {
            Some(field) => i32::from_json(field),
            None => None,
        };
        let kind = match doc.get("kind") {
            Some(field) => PetKind::from_json(field),
            None => None,
        };
        match (name, age, kind) {
            (Some(name), Some(age), Some(kind)) => Some(Pet { name, age, kind }),
            _ => None,
        }
    }

    proof fn lemma_round_trip(value: PetView) {
        lemma_member_names_differ();
        lemma_kind_tags_differ();
        let members = pet_members(value);
        reveal_with_fuel(member, 4);
        assert(members.skip(1)[0] == members[1]);
        assert(members.skip(1).skip(1)[0] == members[2]);
        assert(member(members, "name"@) == Some(Json::String(value.name)));
        assert(member(members, "age"@) == Some(Json::Integer(value.age as int)));
        assert(member(members, "kind"@) == Some(Json::String(kind_tag(value.kind))));
        PetKind::lemma_round_trip(value.kind);
    }
}

/// The word `pets` in ASCII.
pub open spec fn pets_word() -> Seq<u8> {
    seq![0x70u8, 0x65u8, 0x74u8, 0x73u8]
}

/// The template `/pets`, under which pets are listed and created.
pub open spec fn collection_template() -> Seq<SegmentView> {
    seq![SegmentView::Literal(pets_word())]
}

/// The template `/pets/{id}`, under which one pet is updated and deleted.
pub open spec fn item_template() -> Seq<SegmentView> {
    seq![SegmentView::Literal(pets_word()), SegmentView::Param("id"@)]
}

/// A byte that is no letter of `pets` occurs in no literal of the two
/// templates.
pub proof fn lemma_templates_avoid(b: u8)
    requires
        b != 0x70 && b != 0x65 && b != 0x74 && b != 0x73,
    ensures
        literals_avoid(collection_template(), b),
        literals_avoid(item_template(), b),
{
    let one = collection_template();
    let two = item_template();
    assert forall|i: int, k: int|
        0 <= i < one.len() && #[trigger] one[i] is Literal && 0 <= k
            < one[i]->Literal_0.len() implies #[trigger] one[i]->Literal_0[k] != b by {
        assert(one[i]->Literal_0 == pets_word());
    }
    assert forall|i: int, k: int|
        0 <= i < two.len() && #[trigger] two[i] is Literal && 0 <= k
            < two[i]->Literal_0.len() implies #[trigger] two[i]->Literal_0[k] != b by {
        assert(i == 0);
        assert(two[i]->Literal_0 == pets_word());
    }
}

/// The name of the parameter that identifies a pet.
pub const ID: &'static str = "id";

/// The template `/pets`.
pub fn collection() -> (template: Vec<Segment>)
    ensures
        template_view(template@) == collection_template(),
{
    let word: Vec<u8> = vec![0x70u8, 0x65u8, 0x74u8, 0x73u8];
    assert(word@ =~= pets_word());
    let mut template: Vec<Segment> = Vec::new();
    template.push(Segment::Literal(word));
    assert(template_view(template@) =~= collection_template());
    template
}

/// The template `/pets/{id}`.
pub fn item() -> (template: Vec<Segment>)
    ensures
        template_view(template@) == item_template(),
{
    let word: Vec<u8> = vec![0x70u8, 0x65u8, 0x74u8, 0x73u8];
    assert(word@ =~= pets_word());
    let mut template: Vec<Segment> = Vec::new();
    template.push(Segment::Literal(word));
    template.push(Segment::Param(ID.to_owned()));
    assert(template_view(template@) =~= item_template());
    template
}

/// What a pet store offers: one method for each operation.
///
/// What a store does is its own affair. Each implementation says it in one
/// relation for each operation, between the store before the call, the
/// arguments, the outcome, and the store after it. An implementation that
/// leaves a relation as it is here promises nothing of that operation.
pub trait Pets: Sized {
    /// What a failed operation reports.
    type Error;

    /// Whether listing can end in `r` and leave the store as `after`.
    open spec fn lists(&self, r: Result<Vec<Pet>, Self::Error>, after: Self) -> bool {
        true
    }

    /// Whether creating `pet` can end in `r` and leave the store as `after`.
    open spec fn creates(&self, pet: PetView, r: Result<Pet, Self::Error>, after: Self) -> bool {
        true
    }

    /// Whether updating `id` with `pet` can end in `r` and leave the store
    /// as `after`.
    open spec fn updates(
        &self,
        id: Seq<char>,
        pet: PetView,
        r: Result<Pet, Self::Error>,
        after: Self,
    ) -> bool {
        true
    }

    /// Whether deleting `id` can end in `failure`, which is `None` where the
    /// pet was deleted, and leave the store as `after`.
    open spec fn deletes(&self, id: Seq<char>, failure: Option<Self::Error>, after: Self) -> bool {
        true
    }

    /// All pets of the store.
    fn list(&mut self) -> (r: Result<Vec<Pet>, Self::Error>)
        ensures
            old(self).lists(r, *final(self)),
    ;

    /// Adds a pet and returns it.
    fn create(&mut self, pet: Pet) -> (r: Result<Pet, Self::Error>)
        ensures
            old(self).creates(pet@, r, *final(self)),
    ;

    /// Replaces the pet that is kept under `id` and returns the new one.
    fn update(&mut self, id: &str, pet: Pet) -> (r: Result<Pet, Self::Error>)
        ensures
            old(self).updates(id@, pet@, r, *final(self)),
    ;

    /// Removes the pet that is kept under `id`.
    fn delete(&mut self, id: &str) -> (r: Result<(), Self::Error>)
        ensures
            old(self).deletes(id@, failure_of(r), *final(self)),
    ;
}

} // verus!
