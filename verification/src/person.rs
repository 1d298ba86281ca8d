//! Person records and the wire form of the operations on them.

use crate::json::{json_document, member, parse, quote, quoted, Json};
use crate::store::{
    after_create, after_delete, after_patch, after_replace, create_result, delete_result,
    patch_result, read_result, replace_result, Database, Records,
};
use crate::text::{
    decimal, first_line, line_one, nth_word, push_decimal, strip_leading, strip_prefixes, to_chars,
    to_string, word,
};
use vstd::prelude::*;
use vstd::string::StringExecFns;

verus! {

/// A person record.
#[derive(Debug)]
pub struct Person {
    pub name: String,
    pub age: u32,
    pub drinks: Vec<String>,
}

/// What a person record holds.
pub struct PersonView {
    pub name: Seq<char>,
    pub age: u32,
    pub drinks: Seq<Seq<char>>,
}

/// The views of a sequence of strings.
pub open spec fn texts(v: Seq<String>) -> Seq<Seq<char>> {
    v.map_values(|s: String| s@)
}

impl View for Person {
    type V = PersonView;

    open spec fn view(&self) -> PersonView {
        PersonView { name: self.name@, age: self.age, drinks: texts(self.drinks@) }
    }
}

/// A copy of a list of strings.
pub fn copy_strings(v: &Vec<String>) -> (r: Vec<String>)
    ensures
        texts(r@) == texts(v@),
{
    let mut r: Vec<String> = Vec::new();
    let mut i: usize = 0;
    while i < v.len()
        invariant
            i <= v.len(),
            texts(r@) == texts(v@).take(i as int),
        decreases v.len() - i,
    {
        r.push(v[i].clone());
        assert(texts(r@) == texts(v@).take(i as int).push(v@[i as int]@));
        i += 1;
    }
    r
}

impl Clone for Person {
    fn clone(&self) -> (r: Self)
        ensures
            r@ == self@,
    {
        Person { name: self.name.clone(), age: self.age, drinks: copy_strings(&self.drinks) }
    }
}

/// The fields of a partial update: each one is given or left alone.
#[derive(Debug)]
pub struct PersonPatch {
    pub name: Option<String>,
    pub age: Option<u32>,
    pub drinks: Option<Vec<String>>,
}

/// What a partial update holds.
pub struct PatchView {
    pub name: Option<Seq<char>>,
    pub age: Option<u32>,
    pub drinks: Option<Seq<Seq<char>>>,
}

impl View for PersonPatch {
    type V = PatchView;

    open spec fn view(&self) -> PatchView {
        PatchView {
            name: text_in(self.name),
            age: self.age,
            drinks: match self.drinks {
                Some(d) => Some(texts(d@)),
                None => None,
            },
        }
    }
}

/// The record `p` with the given fields of `f` written over it.
pub open spec fn patched(p: PersonView, f: PatchView) -> PersonView {
    PersonView {
        name: match f.name {
            Some(n) => n,
            None => p.name,
        },
        age: match f.age {
            Some(a) => a,
            None => p.age,
        },
        drinks: match f.drinks {
            Some(d) => d,
            None => p.drinks,
        },
    }
}

impl Person {
    /// Writes the given fields of `fields` over this record.
    pub fn apply(&mut self, fields: &PersonPatch)
        ensures
            final(self)@ == patched(old(self)@, fields@),
    {
        if let Some(name) = &fields.name {
            self.name = name.clone();
        }
        if let Some(age) = fields.age {
            self.age = age;
        }
        if let Some(drinks) = &fields.drinks {
            self.drinks = copy_strings(drinks);
        }
    }
}

/// The texts among `items`, in order; other items are passed over.
pub open spec fn texts_among(items: Seq<Json>) -> Seq<Seq<char>>
    decreases items.len(),
{
    if items.len() == 0 {
        Seq::empty()
    } else {
        match items.last() {
            Json::Text(s) => texts_among(items.drop_last()).push(s@),
            _ => texts_among(items.drop_last()),
        }
    }
}

/// The texts of `items` if every one of them is a JSON string.
pub open spec fn all_texts(items: Seq<Json>) -> Option<Seq<Seq<char>>> {
    if forall|i: int| 0 <= i < items.len() ==> #[trigger] items[i] is Text {
        Some(Seq::new(items.len(), |i: int| items[i]->Text_0@))
    } else {
        None
    }
}

/// The drinks that a record's document gives: none where it has no such
/// member, else the member has to be an array of strings.
pub open spec fn drinks_of(j: Json) -> Option<Seq<Seq<char>>> {
    match member(j, "drinks"@) {
        None => Some(Seq::empty()),
        Some(Json::Array(items)) => all_texts(items@),
        Some(_) => None,
    }
}

/// The record that a document denotes: an object with a string `name`, an
/// integer `age` from zero to `u32::MAX` and, if it has `drinks`, an array
/// of strings there. Other members are passed over.
pub open spec fn person_of(j: Json) -> Option<PersonView> {
    match (member(j, "name"@), member(j, "age"@), drinks_of(j)) {
        (Some(Json::Text(name)), Some(Json::Number(Some(age))), Some(drinks)) => {
            if age <= u32::MAX {
                Some(PersonView { name: name@, age: age as u32, drinks })
            } else {
                None
            }
        },
        _ => None,
    }
}

/// The partial update that a document denotes where its age is `age`:
/// `name` where it is a string, `drinks` where it is an array (the strings
/// in it).
pub open spec fn patch_with_age(j: Json, age: Option<u32>) -> PatchView {
    PatchView {
        name: match member(j, "name"@) {
            Some(Json::Text(name)) => Some(name@),
            _ => None,
        },
        age,
        drinks: match member(j, "drinks"@) {
            Some(Json::Array(items)) => Some(texts_among(items@)),
            _ => None,
        },
    }
}

/// The partial update that a document denotes. An `age` that is an integer
/// from zero to `u32::MAX` is taken as it is; one above `u32::MAX` is no
/// age, and the document then denotes no update. An `age` of any other
/// kind is passed over, as a `name` or `drinks` of another kind is.
pub open spec fn patch_of(j: Json) -> Option<PatchView> {
    match member(j, "age"@) {
        Some(Json::Number(Some(age))) => if age <= u32::MAX {
            Some(patch_with_age(j, Some(age as u32)))
        } else {
            None
        },
        _ => Some(patch_with_age(j, None)),
    }
}

/// The JSON strings of `drinks` with commas between them.
pub open spec fn drinks_json(drinks: Seq<Seq<char>>) -> Seq<char>
    decreases drinks.len(),
{
    if drinks.len() == 0 {
        Seq::empty()
    } else if drinks.len() == 1 {
        quoted(drinks[0])
    } else {
        drinks_json(drinks.drop_last()) + seq![','] + quoted(drinks.last())
    }
}

/// The JSON text of a record: an object with `name`, `age` and `drinks`,
/// in this order and without white space.
pub open spec fn person_json(p: PersonView) -> Seq<char> {
    "{\"name\":"@ + quoted(p.name) + ",\"age\":"@ + decimal(p.age as nat) + ",\"drinks\":["@
        + drinks_json(p.drinks) + "]}"@
}

/// The texts of `items` if every one of them is a JSON string.
pub fn strings_of_all(items: &Vec<Json>) -> (r: Option<Vec<String>>)
    ensures
        r is Some ==> all_texts(items@) == Some(texts(r->0@)),
        r is None ==> all_texts(items@) is None,
{
    let mut out: Vec<String> = Vec::new();
    let mut i: usize = 0;
    while i < items.len()
        invariant
            i <= items.len(),
            forall|k: int| 0 <= k < i ==> #[trigger] items@[k] is Text,
            texts(out@) == Seq::new(i as nat, |k: int| items@[k]->Text_0@),
        decreases items.len() - i,
    {
        match &items[i] {
            Json::Text(s) => {
                let ghost before = out@;
                out.push(s.clone());
                assert(items@[i as int]->Text_0 == *s);
                assert(texts(out@) == texts(before).push(s@));
                assert(texts(out@) == Seq::new((i + 1) as nat, |k: int| items@[k]->Text_0@));
            },
            _ => {
                assert(!(items@[i as int] is Text));
                return None;
            },
        }
        i += 1;
    }
    Some(out)
}

/// The texts among `items`, in order.
pub fn strings_among(items: &Vec<Json>) -> (r: Vec<String>)
    ensures
        texts(r@) == texts_among(items@),
{
    let mut out: Vec<String> = Vec::new();
    let mut i: usize = 0;
    while i < items.len()
        invariant
            i <= items.len(),
            texts(out@) == texts_among(items@.take(i as int)),
        decreases items.len() - i,
    {
        assert(items@.take(i + 1).drop_last() == items@.take(i as int));
        match &items[i] {
            Json::Text(s) => {
                let ghost before = out@;
                out.push(s.clone());
                assert(texts(out@) == texts(before).push(s@));
            },
            _ => {},
        }
        i += 1;
    }
    assert(items@.take(items.len() as int) == items@);
    out
}

impl Person {
    /// The record that `j` denotes.
    pub fn from_json(j: &Json) -> (r: Option<Person>)
        ensures
            r is Some ==> person_of(*j) == Some(r->0@),
            r is None ==> person_of(*j) is None,
    {
        let name = match j.get("name") {
            Some(Json::Text(name)) => name.clone(),
            _ => {
                return None;
            },
        };
        let age: u32 = match j.get("age") {
            Some(Json::Number(Some(age))) => {
                if *age > u32::MAX as u64 {
                    return None;
                }
                *age as u32
            },
            _ => {
                return None;
            },
        };
        let drinks = match j.get("drinks") {
            None => Vec::new(),
            Some(Json::Array(items)) => match strings_of_all(items) {
                Some(drinks) => drinks,
                None => {
                    return None;
                },
            },
            Some(_) => {
                return None;
            },
        };
        let p = Person { name, age, drinks };
        assert(p@.drinks =~= drinks_of(*j).unwrap());
        Some(p)
    }

    /// The JSON text of this record.
    pub fn to_json(&self) -> (r: String)
        ensures
            r@ == person_json(self@),
    {
        let mut out = "{\"name\":".to_owned();
        out.append(quote(self.name.as_str()).as_str());
        out.append(",\"age\":");
        let mut digits: Vec<char> = Vec::new();
        push_decimal(&mut digits, self.age as u64);
        out.append(to_string(&digits).as_str());
        out.append(",\"drinks\":[");
        let ghost head = out@;
        let mut i: usize = 0;
        while i < self.drinks.len()
            invariant
                i <= self.drinks.len(),
                out@ == head + drinks_json(texts(self.drinks@).take(i as int)),
            decreases self.drinks.len() - i,
        {
            let ghost d = texts(self.drinks@);
            assert(d.take(i + 1).drop_last() == d.take(i as int));
            if i > 0 {
                out.append(",");
                proof {
                    reveal_strlit(",");
                    assert(","@ == seq![',']);
                }
            }
            out.append(quote(self.drinks[i].as_str()).as_str());
            i += 1;
        }
        assert(texts(self.drinks@).take(self.drinks.len() as int) == texts(self.drinks@));
        out.append("]}");
        out
    }
}

impl PersonPatch {
    /// The partial update that `j` denotes, if it denotes one.
    pub fn from_json(j: &Json) -> (r: Option<PersonPatch>)
        ensures
            r is Some ==> patch_of(*j) == Some(r->0@),
            r is None ==> patch_of(*j) is None,
    {
        let age: Option<u32> = match j.get("age") {
            Some(Json::Number(Some(age))) => {
                if *age > u32::MAX as u64 {
                    return None;
                }
                Some(*age as u32)
            },
            _ => None,
        };
        let name = match j.get("name") {
            Some(Json::Text(name)) => Some(name.clone()),
            _ => None,
        };
        let drinks = match j.get("drinks") {
            Some(Json::Array(items)) => Some(strings_among(items)),
            _ => None,
        };
        Some(PersonPatch { name, age, drinks })
    }
}

/// What a text is once its percent escapes are resolved, as `urlencoding`
/// reads them; `None` where the resolved bytes are not UTF-8.
pub uninterp spec fn percent_decoded(text: Seq<char>) -> Option<Seq<char>>;

/// `urlencoding::decode`: `text` with each `%` and two hexadecimal digits
/// replaced by the byte they denote, or `None` where the bytes that result
/// are not UTF-8. A text without `%` comes back as it is.
#[verifier::external_body]
pub(crate) fn percent_decode(text: &str) -> (r: Option<String>)
    ensures
        r is Some ==> percent_decoded(text@) == Some(r->0@),
        r is None ==> percent_decoded(text@) is None,
        !text@.contains('%') ==> r is Some && r->0@ == text@,
{
    match urlencoding::decode(text) {
        Ok(decoded) => Some(decoded.into_owned()),
        Err(_) => None,
    }
}

/// The view of a string that may be missing.
pub open spec fn text_in(s: Option<String>) -> Option<Seq<char>> {
    match s {
        Some(s) => Some(s@),
        None => None,
    }
}

/// The decoded text where there is one, else the raw text.
pub open spec fn decoded_or(decoded: Option<Seq<char>>, raw: Seq<char>) -> Seq<char> {
    match decoded {
        Some(d) => d,
        None => raw,
    }
}

/// A key as written on the wire, with its percent escapes resolved; the
/// key itself where they cannot be.
pub open spec fn key_of(raw: Seq<char>) -> Seq<char> {
    decoded_or(percent_decoded(raw), raw)
}

/// The name in a request's path as it is written there: the second word
/// of the request line without the `/person/` that it begins with.
pub open spec fn raw_name(request: Seq<char>) -> Seq<char> {
    strip_prefixes(word(first_line(request), 1), "/person/"@)
}

/// The key that a request names.
pub open spec fn request_name(request: Seq<char>) -> Seq<char> {
    key_of(raw_name(request))
}

/// The reply to a body that is no JSON text of the shape asked for.
pub open spec fn bad_request() -> Seq<char> {
    "HTTP/1.1 400 Bad Request\r\n\r\nInvalid JSON data."@
}

/// The reply to a create under a key that is taken.
pub open spec fn conflict() -> Seq<char> {
    "HTTP/1.1 409 Conflict\r\n\r\nPerson already exists."@
}

/// The reply where no record stands under the key.
pub open spec fn not_found() -> Seq<char> {
    "HTTP/1.1 404 Not Found\r\n\r\nPerson not found."@
}

/// The reply that carries a record that was created.
pub open spec fn created(json: Seq<char>) -> Seq<char> {
    "HTTP/1.1 201 Created\r\nContent-Type: application/json\r\n\r\n"@ + json
}

/// The reply that carries a record.
pub open spec fn ok_json(json: Seq<char>) -> Seq<char> {
    "HTTP/1.1 200 OK\r\nContent-Type: application/json\r\n\r\n"@ + json
}

/// The reply to a delete that was done.
pub open spec fn deleted(name: Seq<char>) -> Seq<char> {
    "HTTP/1.1 200 OK\r\n\r\nPerson "@ + name + " deleted successfully."@
}

/// The record that a body denotes.
pub open spec fn body_person(body: Seq<char>) -> Option<PersonView> {
    match json_document(body) {
        Some(j) => person_of(j),
        None => None,
    }
}

/// The reply to a POST.
pub open spec fn post_response(db: Records, body: Seq<char>) -> Seq<char> {
    match body_person(body) {
        None => bad_request(),
        Some(p) => match create_result(db, p) {
            Ok(stored) => created(person_json(stored)),
            Err(_) => conflict(),
        },
    }
}

/// The store after a POST.
pub open spec fn after_post(db: Records, body: Seq<char>) -> Records {
    match body_person(body) {
        None => db,
        Some(p) => after_create(db, p),
    }
}

/// The reply to a GET.
pub open spec fn get_response(db: Records, request: Seq<char>) -> Seq<char> {
    match read_result(db, request_name(request)) {
        Ok(p) => ok_json(person_json(p)),
        Err(_) => not_found(),
    }
}

/// The reply to a PUT.
pub open spec fn put_response(db: Records, request: Seq<char>, body: Seq<char>) -> Seq<char> {
    match body_person(body) {
        None => bad_request(),
        Some(p) => match replace_result(db, request_name(request), p) {
            Ok(stored) => ok_json(person_json(stored)),
            Err(_) => not_found(),
        },
    }
}

/// The store after a PUT.
pub open spec fn after_put(db: Records, request: Seq<char>, body: Seq<char>) -> Records {
    match body_person(body) {
        None => db,
        Some(p) => after_replace(db, request_name(request), p),
    }
}

/// The partial update that a body denotes.
pub open spec fn body_patch(body: Seq<char>) -> Option<PatchView> {
    match json_document(body) {
        Some(j) => patch_of(j),
        None => None,
    }
}

/// The reply to a PATCH. The key is looked up before the body is read.
pub open spec fn patch_response(db: Records, request: Seq<char>, body: Seq<char>) -> Seq<char> {
    if !db.contains_key(request_name(request)) {
        not_found()
    } else {
        match body_patch(body) {
            None => bad_request(),
            Some(f) => match patch_result(db, request_name(request), f) {
                Ok(stored) => ok_json(person_json(stored)),
                Err(_) => not_found(),
            },
        }
    }
}

/// The store after a PATCH.
pub open spec fn after_patch_request(db: Records, request: Seq<char>, body: Seq<char>) -> Records {
    match body_patch(body) {
        None => db,
        Some(f) => after_patch(db, request_name(request), f),
    }
}

/// The reply to a DELETE.
pub open spec fn delete_response(db: Records, request: Seq<char>) -> Seq<char> {
    match delete_result(db, request_name(request)) {
        Ok(_) => deleted(request_name(request)),
        Err(_) => not_found(),
    }
}

/// The store after a DELETE.
pub open spec fn after_delete_request(db: Records, request: Seq<char>) -> Records {
    after_delete(db, request_name(request))
}

/// An empty store.
pub fn create_database() -> (db: Database)
    ensures
        db@ == Records::empty(),
{
    Database::new()
}

/// The decoded text where there is one, else the raw text.
pub fn decoded_or_raw(decoded: Option<String>, raw: String) -> (r: String)
    ensures
        r@ == decoded_or(text_in(decoded), raw@),
{
    match decoded {
        Some(d) => d,
        None => raw,
    }
}

/// A key as written on the wire, with its percent escapes resolved.
pub fn decode_key(raw: String) -> (r: String)
    ensures
        r@ == key_of(raw@),
{
    let decoded = percent_decode(raw.as_str());
    decoded_or_raw(decoded, raw)
}

/// The name in a request's path as it is written there.
pub fn raw_name_from_request(request: &str) -> (r: String)
    ensures
        r@ == raw_name(request@),
{
    let line = line_one(&to_chars(request));
    let target = nth_word(&line, 1);
    to_string(&strip_leading(&target, &to_chars("/person/")))
}

/// The key that a request names.
pub fn extract_name_from_request(request: &str) -> (r: String)
    ensures
        r@ == request_name(request@),
{
    decode_key(raw_name_from_request(request))
}

/// The record that a body denotes.
pub fn person_from_body(body: &str) -> (r: Option<Person>)
    ensures
        r is Some ==> body_person(body@) == Some(r->0@),
        r is None ==> body_person(body@) is None,
{
    match parse(body) {
        Some(j) => Person::from_json(&j),
        None => None,
    }
}

/// The partial update that a body denotes.
pub fn patch_from_body(body: &str) -> (r: Option<PersonPatch>)
    ensures
        r is Some ==> body_patch(body@) == Some(r->0@),
        r is None ==> body_patch(body@) is None,
{
    match parse(body) {
        Some(j) => PersonPatch::from_json(&j),
        None => None,
    }
}

/// The reply that carries `json` after `head`.
fn reply_with(head: &str, json: String) -> (r: String)
    ensures
        r@ == head@ + json@,
{
    let mut out = head.to_owned();
    out.append(json.as_str());
    out
}

/// Serves a POST: creates the record that the body denotes, under its name
/// as the body gives it.
pub fn handle_post(body: &str, db: &mut Database) -> (response: String)
    ensures
        response@ == post_response(old(db)@, body@),
        final(db)@ == after_post(old(db)@, body@),
{
    let person = match person_from_body(body) {
        Some(person) => person,
        None => {
            return "HTTP/1.1 400 Bad Request\r\n\r\nInvalid JSON data.".to_owned();
        },
    };
    match db.create(person) {
        Ok(stored) => reply_with(
            "HTTP/1.1 201 Created\r\nContent-Type: application/json\r\n\r\n",
            stored.to_json(),
        ),
        Err(_) => "HTTP/1.1 409 Conflict\r\n\r\nPerson already exists.".to_owned(),
    }
}

/// Serves a GET: the record under the key that the request names.
pub fn handle_get(request: &str, db: &Database) -> (response: String)
    ensures
        response@ == get_response(db@, request@),
{
    let name = extract_name_from_request(request);
    match db.read(name.as_str()) {
        Ok(person) => reply_with(
            "HTTP/1.1 200 OK\r\nContent-Type: application/json\r\n\r\n",
            person.to_json(),
        ),
        Err(_) => "HTTP/1.1 404 Not Found\r\n\r\nPerson not found.".to_owned(),
    }
}

/// Serves a PUT: the record that the body denotes takes the place of the
/// one under the key that the request names, and stands under its own
/// name.
pub fn handle_put(request: &str, body: &str, db: &mut Database) -> (response: String)
    ensures
        response@ == put_response(old(db)@, request@, body@),
        final(db)@ == after_put(old(db)@, request@, body@),
{
    let name = extract_name_from_request(request);
    let person = match person_from_body(body) {
        Some(person) => person,
        None => {
            return "HTTP/1.1 400 Bad Request\r\n\r\nInvalid JSON data.".to_owned();
        },
    };
    match db.replace(name.as_str(), person) {
        Ok(stored) => reply_with(
            "HTTP/1.1 200 OK\r\nContent-Type: application/json\r\n\r\n",
            stored.to_json(),
        ),
        Err(_) => "HTTP/1.1 404 Not Found\r\n\r\nPerson not found.".to_owned(),
    }
}

/// Serves a PATCH: the fields that the body gives are written over the
/// record under the key that the request names, and the record then stands
/// under its name.
pub fn handle_patch(request: &str, body: &str, db: &mut Database) -> (response: String)
    ensures
        response@ == patch_response(old(db)@, request@, body@),
        final(db)@ == after_patch_request(old(db)@, request@, body@),
{
    let name = extract_name_from_request(request);
    if !db.contains_key(name.as_str()) {
        return "HTTP/1.1 404 Not Found\r\n\r\nPerson not found.".to_owned();
    }
    let fields = match patch_from_body(body) {
        Some(fields) => fields,
        None => {
            return "HTTP/1.1 400 Bad Request\r\n\r\nInvalid JSON data.".to_owned();
        },
    };
    match db.patch(name.as_str(), &fields) {
        Ok(stored) => reply_with(
            "HTTP/1.1 200 OK\r\nContent-Type: application/json\r\n\r\n",
            stored.to_json(),
        ),
        Err(_) => "HTTP/1.1 404 Not Found\r\n\r\nPerson not found.".to_owned(),
    }
}

/// Serves a DELETE: takes the record under the key that the request names
/// out.
pub fn handle_delete(request: &str, db: &mut Database) -> (response: String)
    ensures
        response@ == delete_response(old(db)@, request@),
        final(db)@ == after_delete_request(old(db)@, request@),
{
    let name = extract_name_from_request(request);
    match db.delete(name.as_str()) {
        Ok(_) => {
            let mut out = "HTTP/1.1 200 OK\r\n\r\nPerson ".to_owned();
            out.append(name.as_str());
            out.append(" deleted successfully.");
            out
        },
        Err(_) => "HTTP/1.1 404 Not Found\r\n\r\nPerson not found.".to_owned(),
    }
}

} // verus!
