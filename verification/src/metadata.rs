//! User profile metadata.
//!
//! `Metadata` is the core profile record; its custom fields carry either a
//! plain text value or a rendered JSON value. `FlutterMetadata` is the
//! flattened shape handed across the presentation boundary, with every custom
//! value as a string. Converting a string back distinguishes the two by
//! whether it parses as JSON, decided by serde_json behind a trusted wrapper.

use vstd::prelude::*;

verus! {

/// Whether a string parses as a JSON document; decided by serde_json.
pub uninterp spec fn json_parses(s: Seq<char>) -> bool;

/// Relies on serde_json::from_str for serde_json::Value: whether a string is
/// a well-formed JSON document depends on the string alone.
#[verifier::external_body]
pub(crate) fn json_is_valid(s: &str) -> (r: bool)
    ensures
        r == json_parses(s@),
{
    serde_json::from_str::<serde_json::Value>(s).is_ok()
}

/// One custom profile value: plain text, or a rendered JSON document.
#[derive(Debug)]
pub enum CustomValue {
    /// A plain string value.
    Text(String),
    /// A non-string JSON value, rendered as its JSON text.
    Json(String),
}

/// The mathematical shape of a custom value.
pub enum CustomValueV {
    Text(Seq<char>),
    Json(Seq<char>),
}

impl View for CustomValue {
    type V = CustomValueV;

    open spec fn view(&self) -> CustomValueV {
        match self {
            CustomValue::Text(s) => CustomValueV::Text(s@),
            CustomValue::Json(s) => CustomValueV::Json(s@),
        }
    }
}

impl Clone for CustomValue {
    fn clone(&self) -> (r: Self)
        ensures
            r@ == self@,
    {
        match self {
            CustomValue::Text(s) => CustomValue::Text(s.clone()),
            CustomValue::Json(s) => CustomValue::Json(s.clone()),
        }
    }
}

/// One custom profile field.
#[derive(Debug)]
pub struct CustomField {
    pub key: String,
    pub value: CustomValue,
}

/// The mathematical shape of a custom field.
pub struct CustomFieldV {
    pub key: Seq<char>,
    pub value: CustomValueV,
}

impl View for CustomField {
    type V = CustomFieldV;

    open spec fn view(&self) -> CustomFieldV {
        CustomFieldV { key: self.key@, value: self.value@ }
    }
}

impl Clone for CustomField {
    fn clone(&self) -> (r: Self)
        ensures
            r@ == self@,
    {
        CustomField { key: self.key.clone(), value: self.value.clone() }
    }
}

/// Core profile metadata, standard fields plus custom fields.
#[derive(Debug)]
pub struct Metadata {
    pub name: Option<String>,
    pub display_name: Option<String>,
    pub about: Option<String>,
    pub picture: Option<String>,
    pub banner: Option<String>,
    pub website: Option<String>,
    pub nip05: Option<String>,
    pub lud06: Option<String>,
    pub lud16: Option<String>,
    pub custom: Vec<CustomField>,
}

/// One flattened custom field.
#[derive(Debug)]
pub struct StringField {
    pub key: String,
    pub value: String,
}

/// The mathematical shape of a flattened custom field.
pub struct StringFieldV {
    pub key: Seq<char>,
    pub value: Seq<char>,
}

impl View for StringField {
    type V = StringFieldV;

    open spec fn view(&self) -> StringFieldV {
        StringFieldV { key: self.key@, value: self.value@ }
    }
}

impl Clone for StringField {
    fn clone(&self) -> (r: Self)
        ensures
            r@ == self@,
    {
        StringField { key: self.key.clone(), value: self.value.clone() }
    }
}

/// Profile metadata in the flattened shape of the presentation boundary:
/// every custom value is a string.
#[derive(Debug)]
pub struct FlutterMetadata {
    pub name: Option<String>,
    pub display_name: Option<String>,
    pub about: Option<String>,
    pub picture: Option<String>,
    pub banner: Option<String>,
    pub website: Option<String>,
    pub nip05: Option<String>,
    pub lud06: Option<String>,
    pub lud16: Option<String>,
    pub custom: Vec<StringField>,
}

/// The view of an optional string.
pub open spec fn opt_view(o: Option<String>) -> Option<Seq<char>> {
    match o {
        Some(s) => Some(s@),
        None => None,
    }
}

/// The mathematical shape of core metadata.
pub struct MetadataV {
    pub name: Option<Seq<char>>,
    pub display_name: Option<Seq<char>>,
    pub about: Option<Seq<char>>,
    pub picture: Option<Seq<char>>,
    pub banner: Option<Seq<char>>,
    pub website: Option<Seq<char>>,
    pub nip05: Option<Seq<char>>,
    pub lud06: Option<Seq<char>>,
    pub lud16: Option<Seq<char>>,
    pub custom: Seq<CustomFieldV>,
}

/// The views of a custom field list.
pub open spec fn custom_fields_view(s: Seq<CustomField>) -> Seq<CustomFieldV> {
    s.map_values(|f: CustomField| f@)
}

/// The views of a flattened field list.
pub open spec fn string_fields_view(s: Seq<StringField>) -> Seq<StringFieldV> {
    s.map_values(|f: StringField| f@)
}

impl View for Metadata {
    type V = MetadataV;

    open spec fn view(&self) -> MetadataV {
        MetadataV {
            name: opt_view(self.name),
            display_name: opt_view(self.display_name),
            about: opt_view(self.about),
            picture: opt_view(self.picture),
            banner: opt_view(self.banner),
            website: opt_view(self.website),
            nip05: opt_view(self.nip05),
            lud06: opt_view(self.lud06),
            lud16: opt_view(self.lud16),
            custom: custom_fields_view(self.custom@),
        }
    }
}

/// The mathematical shape of flattened metadata.
pub struct FlutterMetadataV {
    pub name: Option<Seq<char>>,
    pub display_name: Option<Seq<char>>,
    pub about: Option<Seq<char>>,
    pub picture: Option<Seq<char>>,
    pub banner: Option<Seq<char>>,
    pub website: Option<Seq<char>>,
    pub nip05: Option<Seq<char>>,
    pub lud06: Option<Seq<char>>,
    pub lud16: Option<Seq<char>>,
    pub custom: Seq<StringFieldV>,
}

impl View for FlutterMetadata {
    type V = FlutterMetadataV;

    open spec fn view(&self) -> FlutterMetadataV {
        FlutterMetadataV {
            name: opt_view(self.name),
            display_name: opt_view(self.display_name),
            about: opt_view(self.about),
            picture: opt_view(self.picture),
            banner: opt_view(self.banner),
            website: opt_view(self.website),
            nip05: opt_view(self.nip05),
            lud06: opt_view(self.lud06),
            lud16: opt_view(self.lud16),
            custom: string_fields_view(self.custom@),
        }
    }
}

/// Copies an optional string.
pub(crate) fn clone_opt_string(o: &Option<String>) -> (r: Option<String>)
    ensures
        opt_view(r) == opt_view(*o),
{
    match o {
        Some(s) => Some(s.clone()),
        None => None,
    }
}

impl Clone for Metadata {
    fn clone(&self) -> (r: Self)
        ensures
            r@ == self@,
    {
        let r = Metadata {
            name: clone_opt_string(&self.name),
            display_name: clone_opt_string(&self.display_name),
            about: clone_opt_string(&self.about),
            picture: clone_opt_string(&self.picture),
            banner: clone_opt_string(&self.banner),
            website: clone_opt_string(&self.website),
            nip05: clone_opt_string(&self.nip05),
            lud06: clone_opt_string(&self.lud06),
            lud16: clone_opt_string(&self.lud16),
            custom: clone_custom_fields(&self.custom),
        };
        proof {
            assert(r@.custom =~= self@.custom);
        }
        r
    }
}

/// Copies a custom field list.
fn clone_custom_fields(v: &Vec<CustomField>) -> (r: Vec<CustomField>)
    ensures
        custom_fields_view(r@) == custom_fields_view(v@),
{
    let mut r: Vec<CustomField> = Vec::new();
    let mut i: usize = 0;
    while i < v.len()
        invariant
            i <= v@.len(),
            r@.len() == i,
            forall|j: int| 0 <= j < i ==> #[trigger] r@[j]@ == v@[j]@,
        decreases v@.len() - i,
    {
        r.push(v[i].clone());
        i += 1;
    }
    proof {
        assert forall|j: int|
            0 <= j < v@.len() implies custom_fields_view(r@)[j] == custom_fields_view(v@)[j] by {
            assert(custom_fields_view(r@)[j] == r@[j]@);
            assert(custom_fields_view(v@)[j] == v@[j]@);
        }
        assert(custom_fields_view(r@) =~= custom_fields_view(v@));
    }
    r
}

/// Copies a flattened field list.
fn clone_string_fields(v: &Vec<StringField>) -> (r: Vec<StringField>)
    ensures
        string_fields_view(r@) == string_fields_view(v@),
{
    let mut r: Vec<StringField> = Vec::new();
    let mut i: usize = 0;
    while i < v.len()
        invariant
            i <= v@.len(),
            r@.len() == i,
            forall|j: int| 0 <= j < i ==> #[trigger] r@[j]@ == v@[j]@,
        decreases v@.len() - i,
    {
        r.push(v[i].clone());
        i += 1;
    }
    proof {
        assert forall|j: int|
            0 <= j < v@.len() implies string_fields_view(r@)[j] == string_fields_view(v@)[j] by {
            assert(string_fields_view(r@)[j] == r@[j]@);
            assert(string_fields_view(v@)[j] == v@[j]@);
        }
        assert(string_fields_view(r@) =~= string_fields_view(v@));
    }
    r
}

impl Clone for FlutterMetadata {
    fn clone(&self) -> (r: Self)
        ensures
            r@ == self@,
    {
        let r = FlutterMetadata {
            name: clone_opt_string(&self.name),
            display_name: clone_opt_string(&self.display_name),
            about: clone_opt_string(&self.about),
            picture: clone_opt_string(&self.picture),
            banner: clone_opt_string(&self.banner),
            website: clone_opt_string(&self.website),
            nip05: clone_opt_string(&self.nip05),
            lud06: clone_opt_string(&self.lud06),
            lud16: clone_opt_string(&self.lud16),
            custom: clone_string_fields(&self.custom),
        };
        proof {
            assert(r@.custom =~= self@.custom);
        }
        r
    }
}

/// The string a custom value flattens to.
pub open spec fn flatten_custom(v: CustomValueV) -> Seq<char> {
    match v {
        CustomValueV::Text(s) => s,
        CustomValueV::Json(s) => s,
    }
}

/// The custom value a flat string lifts to: a JSON document where it parses
/// as one, plain text otherwise.
pub open spec fn lift_custom(s: Seq<char>) -> CustomValueV {
    if json_parses(s) {
        CustomValueV::Json(s)
    } else {
        CustomValueV::Text(s)
    }
}

impl FlutterMetadata {
    /// Flattens core metadata: standard fields carry over, every custom
    /// value becomes its string form.
    pub fn from_metadata(m: &Metadata) -> (r: FlutterMetadata)
        ensures
            r@.name == m@.name,
            r@.display_name == m@.display_name,
            r@.about == m@.about,
            r@.picture == m@.picture,
            r@.banner == m@.banner,
            r@.website == m@.website,
            r@.nip05 == m@.nip05,
            r@.lud06 == m@.lud06,
            r@.lud16 == m@.lud16,
            r@.custom.len() == m@.custom.len(),
            forall|i: int|
                0 <= i < m@.custom.len() ==> #[trigger] r@.custom[i] == (StringFieldV {
                    key: m@.custom[i].key,
                    value: flatten_custom(m@.custom[i].value),
                }),
    {
        let mut custom: Vec<StringField> = Vec::new();
        let mut i: usize = 0;
        while i < m.custom.len()
            invariant
                i <= m.custom@.len(),
                custom@.len() == i,
                forall|j: int|
                    0 <= j < i ==> #[trigger] custom@[j]@ == (StringFieldV {
                        key: m.custom@[j]@.key,
                        value: flatten_custom(m.custom@[j]@.value),
                    }),
            decreases m.custom@.len() - i,
        {
            let f = &m.custom[i];
            let value = match &f.value {
                CustomValue::Text(s) => s.clone(),
                CustomValue::Json(s) => s.clone(),
            };
            custom.push(StringField { key: f.key.clone(), value });
            i += 1;
        }
        FlutterMetadata {
            name: clone_opt_string(&m.name),
            display_name: clone_opt_string(&m.display_name),
            about: clone_opt_string(&m.about),
            picture: clone_opt_string(&m.picture),
            banner: clone_opt_string(&m.banner),
            website: clone_opt_string(&m.website),
            nip05: clone_opt_string(&m.nip05),
            lud06: clone_opt_string(&m.lud06),
            lud16: clone_opt_string(&m.lud16),
            custom,
        }
    }
}

impl Metadata {
    /// Lifts flattened metadata back: a custom string that parses as JSON
    /// becomes a JSON value, any other becomes plain text.
    pub fn from_flutter(f: &FlutterMetadata) -> (r: Metadata)
        ensures
            r@.name == f@.name,
            r@.display_name == f@.display_name,
            r@.about == f@.about,
            r@.picture == f@.picture,
            r@.banner == f@.banner,
            r@.website == f@.website,
            r@.nip05 == f@.nip05,
            r@.lud06 == f@.lud06,
            r@.lud16 == f@.lud16,
            r@.custom.len() == f@.custom.len(),
            forall|i: int|
                0 <= i < f@.custom.len() ==> #[trigger] r@.custom[i] == (CustomFieldV {
                    key: f@.custom[i].key,
                    value: lift_custom(f@.custom[i].value),
                }),
    {
        let mut custom: Vec<CustomField> = Vec::new();
        let mut i: usize = 0;
        while i < f.custom.len()
            invariant
                i <= f.custom@.len(),
                custom@.len() == i,
                forall|j: int|
                    0 <= j < i ==> #[trigger] custom@[j]@ == (CustomFieldV {
                        key: f.custom@[j]@.key,
                        value: lift_custom(f.custom@[j]@.value),
                    }),
            decreases f.custom@.len() - i,
        {
            let sf = &f.custom[i];
            let value = if json_is_valid(sf.value.as_str()) {
                CustomValue::Json(sf.value.clone())
            } else {
                CustomValue::Text(sf.value.clone())
            };
            custom.push(CustomField { key: sf.key.clone(), value });
            i += 1;
        }
        Metadata {
            name: clone_opt_string(&f.name),
            display_name: clone_opt_string(&f.display_name),
            about: clone_opt_string(&f.about),
            picture: clone_opt_string(&f.picture),
            banner: clone_opt_string(&f.banner),
            website: clone_opt_string(&f.website),
            nip05: clone_opt_string(&f.nip05),
            lud06: clone_opt_string(&f.lud06),
            lud16: clone_opt_string(&f.lud16),
            custom,
        }
    }
}

/// Empty metadata: no standard field set, no custom field.
pub fn empty_flutter_metadata() -> (r: FlutterMetadata)
    ensures
        r@.name is None,
        r@.display_name is None,
        r@.about is None,
        r@.picture is None,
        r@.banner is None,
        r@.website is None,
        r@.nip05 is None,
        r@.lud06 is None,
        r@.lud16 is None,
        r@.custom.len() == 0,
{
    FlutterMetadata {
        name: None,
        display_name: None,
        about: None,
        picture: None,
        banner: None,
        website: None,
        nip05: None,
        lud06: None,
        lud16: None,
        custom: Vec::new(),
    }
}

} // verus!
