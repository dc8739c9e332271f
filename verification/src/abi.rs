//! The interface entry model: a typed representation of one parsed member
//! of a contract interface (a function, an event, or something else that
//! the reports ignore).

use vstd::prelude::*;

verus! {

/// The kind of an interface member. Members whose kind string is neither
/// `"function"` nor `"event"` are classified as `Other` and skipped by the
/// report aggregator.
#[derive(Clone, Copy, PartialEq, Eq, Structural, Debug)]
pub enum EntryKind {
    Function,
    Event,
    Other,
}

/// One parameter of an interface member. The type descriptor is kept
/// verbatim, exactly as the source interface gave it; it may itself encode
/// an array or tuple type as a string.
#[derive(Clone, Debug)]
pub struct InterfaceInput {
    pub param_type: String,
}

impl View for InterfaceInput {
    type V = Seq<char>;

    open spec fn view(&self) -> Seq<char> {
        self.param_type@
    }
}

impl DeepView for InterfaceInput {
    type V = Seq<char>;

    open spec fn deep_view(&self) -> Seq<char> {
        self.view()
    }
}

/// The mathematical model of an [`InterfaceEntry`]: the kind, the optional
/// name, the ordered parameter type descriptors, and the anonymous flag.
pub ghost struct EntryModel {
    pub kind: EntryKind,
    pub name: Option<Seq<char>>,
    pub inputs: Seq<Seq<char>>,
    pub anonymous: bool,
}

/// One member of a contract interface. The parameter order is significant
/// and preserved exactly as declared. `anonymous` is meaningful only for
/// events; where the source interface leaves it out it is false.
#[derive(Clone, Debug)]
pub struct InterfaceEntry {
    pub kind: EntryKind,
    pub name: Option<String>,
    pub inputs: Vec<InterfaceInput>,
    pub anonymous: bool,
}

impl View for InterfaceEntry {
    type V = EntryModel;

    open spec fn view(&self) -> EntryModel {
        EntryModel {
            kind: self.kind,
            name: match self.name {
                Some(n) => Some(n@),
                None => None,
            },
            inputs: Seq::new(self.inputs@.len(), |i: int| self.inputs@[i].param_type@),
            anonymous: self.anonymous,
        }
    }
}

impl DeepView for InterfaceEntry {
    type V = EntryModel;

    open spec fn deep_view(&self) -> EntryModel {
        self.view()
    }
}

/// The kind under which an interface member with kind string `s` is
/// classified: only the exact strings `"function"` and `"event"` name a
/// reportable member.
pub open spec fn spec_classify_kind(s: Seq<char>) -> EntryKind {
    if s == "function"@ {
        EntryKind::Function
    } else if s == "event"@ {
        EntryKind::Event
    } else {
        EntryKind::Other
    }
}

/// Classifies a kind string: `"function"` and `"event"` name the two
/// reportable kinds, every other string maps to `Other`.
pub fn classify_kind(s: &str) -> (k: EntryKind)
    ensures
        k == spec_classify_kind(s@),
{
    let owned = s.to_owned();
    if owned == String::from_str("function") {
        EntryKind::Function
    } else if owned == String::from_str("event") {
        EntryKind::Event
    } else {
        EntryKind::Other
    }
}

/// The error of interface decoding: the interface text could not be decoded
/// into the entry shape. Each variant names the first field at fault.
#[derive(Clone, Copy, PartialEq, Eq, Structural, Debug)]
pub enum MalformedInterfaceError {
    /// The text is not well-formed JSON.
    NotJson,
    /// The top-level JSON value is not an array.
    NotArray,
    /// An element's kind field is missing or is not a string.
    BadKind,
    /// An element's name field is present but neither a string nor null.
    BadName,
    /// An element's inputs field is present but is not an array of objects
    /// each carrying a string type descriptor, and not null.
    BadInputs,
    /// An element's anonymous field is present but not a boolean.
    BadAnonymous,
}

/// What was found at one field of an interface member object: the field is
/// absent, holds JSON null, holds a value of the expected type, or holds a
/// value of some other type.
pub enum FieldValue<T> {
    Absent,
    Null,
    Present(T),
    WrongType,
}

/// The mathematical model of a JSON value: what the decoder can observe of
/// it through the accessors below. A number's magnitude is never read here,
/// so all numbers share one model.
pub ghost enum JsonModel {
    Null,
    Boolean(bool),
    Number,
    Text(Seq<char>),
    Array(Seq<JsonModel>),
    Object(Map<Seq<char>, JsonModel>),
}

/// An external JSON value, opaque here; the decoder reads it only through
/// the trusted accessors below.
#[verifier::external_type_specification]
#[verifier::external_body]
pub struct ExJsonValue(serde_json::Value);

/// The model of a JSON value. The accessors' contracts jointly pin down
/// what it is; nothing else is stated of it.
pub uninterp spec fn json_model(v: serde_json::Value) -> JsonModel;

/// The model of the JSON value that a text parses to, or `None` where the
/// text is not well-formed JSON; parsing is a function of the text alone.
pub uninterp spec fn json_text_model(text: Seq<char>) -> Option<JsonModel>;

/// Relies on serde_json::from_str: parses JSON text into a JSON value; any
/// parse error is reported as `None`.
#[verifier::external_body]
fn json_parse(text: &str) -> (r: Option<serde_json::Value>)
    ensures
        match json_text_model(text@) {
            Some(m) => r matches Some(v) && json_model(v) == m,
            None => r is None,
        },
{
    serde_json::from_str::<serde_json::Value>(text).ok()
}

/// Relies on serde_json::Value::as_array: `Some` exactly when the value is
/// a JSON array, borrowing its elements in order.
#[verifier::external_body]
fn json_as_array(v: &serde_json::Value) -> (r: Option<&Vec<serde_json::Value>>)
    ensures
        match json_model(*v) {
            JsonModel::Array(ms) => (r matches Some(items) && items@.len() == ms.len()
                && forall|i: int|
                0 <= i < ms.len() ==> json_model(#[trigger] items@[i]) == ms[i]),
            _ => r is None,
        },
{
    v.as_array()
}

/// Relies on serde_json::Value::get with a string index: `Some` exactly
/// when the value is a JSON object with that key, borrowing the entry.
#[verifier::external_body]
fn json_get<'a>(v: &'a serde_json::Value, key: &str) -> (r: Option<&'a serde_json::Value>)
    ensures
        match json_model(*v) {
            JsonModel::Object(fields) => {
                if fields.contains_key(key@) {
                    r matches Some(f) && json_model(*f) == fields[key@]
                } else {
                    r is None
                }
            },
            _ => r is None,
        },
{
    v.get(key)
}

/// Relies on serde_json::Value::as_str: `Some` exactly when the value is a
/// JSON string, borrowing it.
#[verifier::external_body]
fn json_as_str(v: &serde_json::Value) -> (r: Option<&str>)
    ensures
        match json_model(*v) {
            JsonModel::Text(s) => r matches Some(rs) && rs@ == s,
            _ => r is None,
        },
{
    v.as_str()
}

/// Relies on serde_json::Value::as_bool: `Some` exactly when the value is a
/// JSON boolean.
#[verifier::external_body]
fn json_as_bool(v: &serde_json::Value) -> (r: Option<bool>)
    ensures
        match json_model(*v) {
            JsonModel::Boolean(b) => r == Some(b),
            _ => r is None,
        },
{
    v.as_bool()
}

/// Relies on serde_json::Value::is_null: true exactly when the value is
/// JSON null.
#[verifier::external_body]
fn json_is_null(v: &serde_json::Value) -> (r: bool)
    ensures
        r == (json_model(*v) is Null),
{
    v.is_null()
}

/// Resolves the kind field: it must be present as a string, which is then
/// classified; anything else fails the decode.
pub fn resolve_kind_field(f: FieldValue<String>) -> (r: Result<EntryKind, MalformedInterfaceError>)
    ensures
        r == match f {
            FieldValue::Present(s) => Ok::<EntryKind, MalformedInterfaceError>(
                spec_classify_kind(s@),
            ),
            _ => Err::<EntryKind, MalformedInterfaceError>(MalformedInterfaceError::BadKind),
        },
{
    match f {
        FieldValue::Present(s) => Ok(classify_kind(s.as_str())),
        _ => Err(MalformedInterfaceError::BadKind),
    }
}

/// Resolves the optional name field: an absent or null name stays absent
/// (the canonicalizer will fall back to the placeholder `unknown`); a
/// string is kept; any other type fails the decode.
pub fn resolve_name_field(f: FieldValue<String>) -> (r: Result<
    Option<String>,
    MalformedInterfaceError,
>)
    ensures
        r == match f {
            FieldValue::Absent => Ok::<Option<String>, MalformedInterfaceError>(None),
            FieldValue::Null => Ok::<Option<String>, MalformedInterfaceError>(None),
            FieldValue::Present(s) => Ok::<Option<String>, MalformedInterfaceError>(Some(s)),
            FieldValue::WrongType => Err::<Option<String>, MalformedInterfaceError>(
                MalformedInterfaceError::BadName,
            ),
        },
{
    match f {
        FieldValue::Absent => Ok(None),
        FieldValue::Null => Ok(None),
        FieldValue::Present(s) => Ok(Some(s)),
        FieldValue::WrongType => Err(MalformedInterfaceError::BadName),
    }
}

/// Resolves the optional inputs field: an absent or null field defaults to
/// no parameters; a well-typed array is kept in order; anything else fails
/// the decode.
pub fn resolve_inputs_field(f: FieldValue<Vec<InterfaceInput>>) -> (r: Result<
    Vec<InterfaceInput>,
    MalformedInterfaceError,
>)
    ensures
        f is Absent || f is Null ==> (r matches Ok(v) && v@ =~= Seq::<InterfaceInput>::empty()),
        f matches FieldValue::Present(v) ==> r == Ok::<Vec<InterfaceInput>,
            MalformedInterfaceError,
        >(v),
        f is WrongType ==> r == Err::<Vec<InterfaceInput>, MalformedInterfaceError>(
            MalformedInterfaceError::BadInputs,
        ),
{
    match f {
        FieldValue::Absent => Ok(Vec::new()),
        FieldValue::Null => Ok(Vec::new()),
        FieldValue::Present(v) => Ok(v),
        FieldValue::WrongType => Err(MalformedInterfaceError::BadInputs),
    }
}

/// Resolves the optional anonymous field: an absent flag defaults to false;
/// a boolean is kept; null or any other type fails the decode.
pub fn resolve_anonymous_field(f: FieldValue<bool>) -> (r: Result<bool, MalformedInterfaceError>)
    ensures
        r == match f {
            FieldValue::Absent => Ok::<bool, MalformedInterfaceError>(false),
            FieldValue::Present(b) => Ok::<bool, MalformedInterfaceError>(b),
            _ => Err::<bool, MalformedInterfaceError>(MalformedInterfaceError::BadAnonymous),
        },
{
    match f {
        FieldValue::Absent => Ok(false),
        FieldValue::Present(b) => Ok(b),
        _ => Err(MalformedInterfaceError::BadAnonymous),
    }
}

/// What stands at one key of a member object's model: `None` where the
/// model is not an object or has no such key.
pub open spec fn spec_field(m: JsonModel, key: Seq<char>) -> Option<JsonModel> {
    match m {
        JsonModel::Object(fields) => if fields.contains_key(key) {
            Some(fields[key])
        } else {
            None
        },
        _ => None,
    }
}

/// What one field of a member object reads as a string: absent, null, the
/// string, or something of another type.
pub open spec fn spec_string_field(m: JsonModel, key: Seq<char>) -> FieldValue<Seq<char>> {
    match spec_field(m, key) {
        None => FieldValue::Absent,
        Some(f) => match f {
            JsonModel::Null => FieldValue::Null,
            JsonModel::Text(s) => FieldValue::Present(s),
            _ => FieldValue::WrongType,
        },
    }
}

/// What one field of a member object reads as a boolean: absent, null, the
/// boolean, or something of another type.
pub open spec fn spec_bool_field(m: JsonModel, key: Seq<char>) -> FieldValue<bool> {
    match spec_field(m, key) {
        None => FieldValue::Absent,
        Some(f) => match f {
            JsonModel::Null => FieldValue::Null,
            JsonModel::Boolean(b) => FieldValue::Present(b),
            _ => FieldValue::WrongType,
        },
    }
}

/// The type descriptor of one well-typed element of the inputs array.
pub open spec fn spec_input_type(item: JsonModel) -> Seq<char> {
    match spec_string_field(item, "type"@) {
        FieldValue::Present(s) => s,
        _ => Seq::empty(),
    }
}

/// What the inputs field of a member object reads as: absent, null, the
/// elements' type descriptors in order, or something ill-shaped — not an
/// array, or an array with an element whose type descriptor is missing or
/// is not a string.
pub open spec fn spec_inputs_field(m: JsonModel) -> FieldValue<Seq<Seq<char>>> {
    match spec_field(m, "inputs"@) {
        None => FieldValue::Absent,
        Some(f) => match f {
            JsonModel::Null => FieldValue::Null,
            JsonModel::Array(items) => {
                if forall|i: int|
                    0 <= i < items.len() ==> spec_string_field(
                        #[trigger] items[i],
                        "type"@,
                    ) is Present {
                    FieldValue::Present(Seq::new(items.len(), |i: int| spec_input_type(items[i])))
                } else {
                    FieldValue::WrongType
                }
            },
            _ => FieldValue::WrongType,
        },
    }
}

/// The decode of one member object, by its model: the kind string is
/// classified, a missing or null name stays absent, missing or null inputs
/// default to empty, a missing anonymous flag defaults to false, and the
/// first wrong-typed field — in the order kind, name, inputs, anonymous —
/// names the error.
pub open spec fn spec_decode_entry(m: JsonModel) -> Result<EntryModel, MalformedInterfaceError> {
    match spec_string_field(m, "type"@) {
        FieldValue::Present(kind_str) => match spec_string_field(m, "name"@) {
            FieldValue::WrongType => Err(MalformedInterfaceError::BadName),
            name_field => match spec_inputs_field(m) {
                FieldValue::WrongType => Err(MalformedInterfaceError::BadInputs),
                inputs_field => match spec_bool_field(m, "anonymous"@) {
                    FieldValue::Null => Err(MalformedInterfaceError::BadAnonymous),
                    FieldValue::WrongType => Err(MalformedInterfaceError::BadAnonymous),
                    anon_field => Ok(
                        EntryModel {
                            kind: spec_classify_kind(kind_str),
                            name: match name_field {
                                FieldValue::Present(s) => Some(s),
                                _ => None,
                            },
                            inputs: match inputs_field {
                                FieldValue::Present(ts) => ts,
                                _ => Seq::empty(),
                            },
                            anonymous: match anon_field {
                                FieldValue::Present(b) => b,
                                _ => false,
                            },
                        },
                    ),
                },
            },
        },
        _ => Err(MalformedInterfaceError::BadKind),
    }
}

/// Reads one field of a member object as a string: absent, null, a string,
/// or something of another type.
fn read_string_field(v: &serde_json::Value, key: &str) -> (f: FieldValue<String>)
    ensures
        match spec_string_field(json_model(*v), key@) {
            FieldValue::Present(s) => f matches FieldValue::Present(fs) && fs@ == s,
            FieldValue::Absent => f is Absent,
            FieldValue::Null => f is Null,
            FieldValue::WrongType => f is WrongType,
        },
{
    match json_get(v, key) {
        None => FieldValue::Absent,
        Some(field) => {
            if json_is_null(field) {
                FieldValue::Null
            } else {
                match json_as_str(field) {
                    Some(s) => FieldValue::Present(s.to_owned()),
                    None => FieldValue::WrongType,
                }
            }
        },
    }
}

/// Reads one field of a member object as a boolean: absent, null, a
/// boolean, or something of another type.
fn read_bool_field(v: &serde_json::Value, key: &str) -> (f: FieldValue<bool>)
    ensures
        f == spec_bool_field(json_model(*v), key@),
{
    match json_get(v, key) {
        None => FieldValue::Absent,
        Some(field) => {
            if json_is_null(field) {
                FieldValue::Null
            } else {
                match json_as_bool(field) {
                    Some(b) => FieldValue::Present(b),
                    None => FieldValue::WrongType,
                }
            }
        },
    }
}

/// Reads the inputs field of a member object: absent, null, an array whose
/// every element carries a string type descriptor under the key `type` (in
/// order), or something ill-shaped.
fn read_inputs_field(v: &serde_json::Value) -> (f: FieldValue<Vec<InterfaceInput>>)
    ensures
        match spec_inputs_field(json_model(*v)) {
            FieldValue::Present(ts) => (f matches FieldValue::Present(ins) && ins.deep_view()
                == ts),
            FieldValue::Absent => f is Absent,
            FieldValue::Null => f is Null,
            FieldValue::WrongType => f is WrongType,
        },
{
    match json_get(v, "inputs") {
        None => FieldValue::Absent,
        Some(field) => {
            if json_is_null(field) {
                FieldValue::Null
            } else {
                match json_as_array(field) {
                    None => FieldValue::WrongType,
                    Some(items) => {
                        let ghost item_models: Seq<JsonModel> = json_model(*field)->Array_0;
                        let mut inputs: Vec<InterfaceInput> = Vec::new();
                        let n = items.len();
                        proof {
                            assert(spec_field(json_model(*v), "inputs"@) == Some(
                                JsonModel::Array(item_models),
                            ));
                        }
                        for i in 0..n
                            invariant
                                n == items.len(),
                                spec_field(json_model(*v), "inputs"@) == Some(
                                    JsonModel::Array(item_models),
                                ),
                                items@.len() == item_models.len(),
                                forall|j: int|
                                    0 <= j < item_models.len() ==> json_model(
                                        #[trigger] items@[j],
                                    ) == item_models[j],
                                forall|j: int|
                                    0 <= j < i ==> spec_string_field(
                                        #[trigger] item_models[j],
                                        "type"@,
                                    ) is Present,
                                inputs.deep_view() =~= Seq::new(
                                    i as nat,
                                    |j: int| spec_input_type(item_models[j]),
                                ),
                        {
                            proof {
                                assert(json_model(items@[i as int]) == item_models[i as int]);
                            }
                            match read_string_field(&items[i], "type") {
                                FieldValue::Present(t) => {
                                    proof {
                                        assert(spec_string_field(
                                            item_models[i as int],
                                            "type"@,
                                        ) matches FieldValue::Present(s) && s == t@);
                                        assert(spec_input_type(item_models[i as int]) == t@);
                                    }
                                    let ghost pre: Seq<Seq<char>> = inputs.deep_view();
                                    let ghost tv: Seq<char> = t@;
                                    inputs.push(InterfaceInput { param_type: t });
                                    proof {
                                        assert(inputs.deep_view() =~= pre.push(tv));
                                        assert(inputs.deep_view() =~= Seq::new(
                                            (i + 1) as nat,
                                            |j: int| spec_input_type(item_models[j]),
                                        ));
                                    }
                                },
                                _ => {
                                    proof {
                                        assert(!(spec_string_field(
                                            item_models[i as int],
                                            "type"@,
                                        ) is Present));
                                        assert(!(forall|j: int|
                                            0 <= j < item_models.len() ==> spec_string_field(
                                                #[trigger] item_models[j],
                                                "type"@,
                                            ) is Present));
                                        assert(spec_inputs_field(json_model(*v))
                                            is WrongType);
                                    }
                                    return FieldValue::WrongType;
                                },
                            }
                        }
                        proof {
                            assert(inputs.deep_view() =~= Seq::new(
                                item_models.len(),
                                |j: int| spec_input_type(item_models[j]),
                            ));
                        }
                        FieldValue::Present(inputs)
                    },
                }
            }
        },
    }
}

/// Decodes one member object of an interface description into an entry:
/// the kind string is classified, a missing or null name stays absent, a
/// missing or null inputs array defaults to empty, and a missing anonymous
/// flag defaults to false; a wrong-typed field fails the decode. Unknown
/// extra fields are ignored.
pub fn decode_entry(v: &serde_json::Value) -> (r: Result<InterfaceEntry, MalformedInterfaceError>)
    ensures
        match spec_decode_entry(json_model(*v)) {
            Ok(em) => r matches Ok(e) && e@ == em,
            Err(err) => r == Err::<InterfaceEntry, MalformedInterfaceError>(err),
        },
{
    let kind = match resolve_kind_field(read_string_field(v, "type")) {
        Ok(k) => k,
        Err(e) => {
            return Err(e);
        },
    };
    let name = match resolve_name_field(read_string_field(v, "name")) {
        Ok(n) => n,
        Err(e) => {
            return Err(e);
        },
    };
    let inputs = match resolve_inputs_field(read_inputs_field(v)) {
        Ok(ins) => ins,
        Err(e) => {
            return Err(e);
        },
    };
    let anonymous = match resolve_anonymous_field(read_bool_field(v, "anonymous")) {
        Ok(b) => b,
        Err(e) => {
            return Err(e);
        },
    };
    let entry = InterfaceEntry { kind, name, inputs, anonymous };
    proof {
        assert(spec_decode_entry(json_model(*v)) matches Ok(em) && entry@.inputs =~= em.inputs);
    }
    Ok(entry)
}

/// The decode of a whole sequence of member objects, by their models, in
/// order: all entries, or the first element's error.
pub open spec fn spec_decode_entries(ms: Seq<JsonModel>) -> Result<
    Seq<EntryModel>,
    MalformedInterfaceError,
>
    decreases ms.len(),
{
    if ms.len() == 0 {
        Ok(Seq::empty())
    } else {
        match spec_decode_entries(ms.drop_last()) {
            Err(e) => Err(e),
            Ok(prefix) => match spec_decode_entry(ms.last()) {
                Ok(em) => Ok(prefix.push(em)),
                Err(e) => Err(e),
            },
        }
    }
}

/// An element that fails to decode fails the whole sequence with its error,
/// provided every element before it decodes.
proof fn lemma_decode_entries_error(ms: Seq<JsonModel>, i: int, e: MalformedInterfaceError)
    requires
        0 <= i < ms.len(),
        spec_decode_entries(ms.take(i)) is Ok,
        spec_decode_entry(ms[i]) == Err::<EntryModel, MalformedInterfaceError>(e),
    ensures
        spec_decode_entries(ms) == Err::<Seq<EntryModel>, MalformedInterfaceError>(e),
    decreases ms.len(),
{
    if ms.len() == i + 1 {
        assert(ms.drop_last() =~= ms.take(i));
        assert(ms.last() == ms[i]);
    } else {
        assert(ms.drop_last().take(i) =~= ms.take(i));
        lemma_decode_entries_error(ms.drop_last(), i, e);
    }
}

/// The parse of a whole interface description: `NotJson` where the text is
/// not well-formed JSON, `NotArray` where its value is not an array, and
/// otherwise the element-wise decode.
pub open spec fn spec_parse_interface(text: Seq<char>) -> Result<
    Seq<EntryModel>,
    MalformedInterfaceError,
> {
    match json_text_model(text) {
        None => Err(MalformedInterfaceError::NotJson),
        Some(m) => match m {
            JsonModel::Array(ms) => spec_decode_entries(ms),
            _ => Err(MalformedInterfaceError::NotArray),
        },
    }
}

/// Parses an interface description: a JSON array of member objects, decoded
/// in order into entries. Fails with [`MalformedInterfaceError`] when the
/// text is not JSON, the top-level value is not an array, or any element
/// cannot be decoded into the entry shape; the whole description is then
/// rejected, so either all entries are decoded or none are.
pub fn parse_interface(text: &str) -> (r: Result<Vec<InterfaceEntry>, MalformedInterfaceError>)
    ensures
        match spec_parse_interface(text@) {
            Ok(ems) => r matches Ok(es) && es.deep_view() == ems,
            Err(err) => r == Err::<Vec<InterfaceEntry>, MalformedInterfaceError>(err),
        },
{
    let value = match json_parse(text) {
        None => {
            return Err(MalformedInterfaceError::NotJson);
        },
        Some(v) => v,
    };
    let items = match json_as_array(&value) {
        None => {
            return Err(MalformedInterfaceError::NotArray);
        },
        Some(a) => a,
    };
    let ghost item_models: Seq<JsonModel> = json_model(value)->Array_0;
    let mut entries: Vec<InterfaceEntry> = Vec::new();
    let n = items.len();
    for i in 0..n
        invariant
            n == items.len(),
            json_text_model(text@) == Some(JsonModel::Array(item_models)),
            items@.len() == item_models.len(),
            forall|j: int|
                0 <= j < item_models.len() ==> json_model(#[trigger] items@[j]) == item_models[j],
            spec_decode_entries(item_models.take(i as int)) matches Ok(prefix) && entries.deep_view()
                == prefix,
    {
        proof {
            assert(json_model(items@[i as int]) == item_models[i as int]);
        }
        match decode_entry(&items[i]) {
            Ok(e) => {
                let ghost pre: Seq<EntryModel> = entries.deep_view();
                let ghost em: EntryModel = e@;
                entries.push(e);
                proof {
                    assert(entries.deep_view() =~= pre.push(em));
                    assert(item_models.take(i + 1).drop_last() =~= item_models.take(i as int));
                    assert(item_models.take(i + 1).last() == item_models[i as int]);
                }
            },
            Err(e) => {
                proof {
                    lemma_decode_entries_error(item_models, i as int, e);
                }
                return Err(e);
            },
        }
    }
    proof {
        assert(item_models.take(n as int) =~= item_models);
    }
    Ok(entries)
}

} // verus!
