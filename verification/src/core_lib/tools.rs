//! Tools of the subscribers of a session: how they are named and offered to a model, and how the
//! calls that a model makes are read.

use serde_json::Value;
use vstd::prelude::*;
use crate::core_lib::error::{CoreError, ToolCallFault};
use crate::core_lib::sessions::{SessionSubscriberInfo, SessionSubscriberInfoModel};
use crate::json::{
    are_names, as_object, as_str, clone_value, get, i64_value, json, lemma_names, lemma_names_exist, map_get,
    map_keys,
    members, names, new_map, no_members, object_value, set_member, text_value, Json,
};
use crate::protocol::{
    BackendToolCall, BackendToolCallModel, Message, MessageModel, MessageRole, Tool, ToolCall,
    ToolCallModel, ToolCallResult, ToolCallResultModel, ToolModel, ToolType,
};
use crate::text::{
    before, byte_len, chars_of, concat, contains, contains_text, decimal, ends_with, find, find_from,
    i64_in, is_alnum, is_digits, is_white, join, join_with, law_decimal_is_read_back,
    lemma_before_irreflexive, lemma_char_found, lemma_decimal, lemma_find_bounds, lemma_found,
    lemma_join_sum, lowercase, matches_at, occurs_at, parse_i64, same, string_of, texts,
};

verus! {

broadcast use vstd::string::group_string_axioms;

// ---------------------------------------------------------------------------------------------
// Finding the tool that a call means.

/// The name under which a tool of a client is offered.
pub open spec fn offered_name(tool: Seq<char>, client: Seq<char>) -> Seq<char> {
    tool + "_"@ + client
}

/// Whether an offered name belongs to the client.
pub open spec fn is_name_of(client: Seq<char>, name: Seq<char>) -> bool {
    ("_"@ + client).is_suffix_of(name)
}

/// The place of the first tool with that name.
pub open spec fn tool_index(tools: Seq<ToolModel>, name: Seq<char>) -> Option<int>
    decreases tools.len(),
{
    if tools.len() == 0 {
        None
    } else if tools[0].name == name {
        Some(0)
    } else {
        match tool_index(tools.drop_first(), name) {
            Some(i) => Some(i + 1),
            None => None,
        }
    }
}

/// The place of the first subscriber to which the name belongs.
pub open spec fn owner_index(infos: Seq<SessionSubscriberInfoModel>, name: Seq<char>) -> Option<int>
    decreases infos.len(),
{
    if infos.len() == 0 {
        None
    } else if is_name_of(infos[0].client_id, name) {
        Some(0)
    } else {
        match owner_index(infos.drop_first(), name) {
            Some(i) => Some(i + 1),
            None => None,
        }
    }
}

/// The tool that a call of that name means, with its own name and its client.
pub open spec fn subscriber_tool(
    infos: Seq<SessionSubscriberInfoModel>,
    name: Seq<char>,
) -> Option<(ToolModel, Seq<char>, Seq<char>)> {
    match owner_index(infos, name) {
        Some(i) => match infos[i].tools {
            Some(tools) => match tool_index(tools, name) {
                Some(j) => Some(
                    (
                        tools[j],
                        name.take(name.len() - infos[i].client_id.len() - 1),
                        infos[i].client_id,
                    ),
                ),
                None => None,
            },
            None => None,
        },
        None => None,
    }
}

/// The place of the first tool with that name.
fn find_tool(tools: &Vec<Tool>, name: &str) -> (r: Option<usize>)
    ensures
        match r {
            Some(i) => i < tools@.len() && tool_index(tools.deep_view(), name@) == Some(i as int),
            None => tool_index(tools.deep_view(), name@) is None,
        },
{
    let ghost all = tools.deep_view();
    let mut i: usize = 0;
    assert(all.skip(0) =~= all);
    while i < tools.len()
        invariant
            i <= tools@.len(),
            all == tools.deep_view(),
            tool_index(all, name@) == (match tool_index(all.skip(i as int), name@) {
                Some(k) => Some(k + i),
                None => None,
            }),
        decreases tools.len() - i,
    {
        assert(all.skip(i as int)[0] == all[i as int]);
        assert(all.skip(i as int).drop_first() =~= all.skip(i + 1));
        if same(tools[i].name.as_str(), name) {
            return Some(i);
        }
        i = i + 1;
    }
    None
}

/// The tool that a call of that name means, with its own name and its client.
pub fn find_subscriber_tool<'a>(
    subscriber_infos: &'a Vec<SessionSubscriberInfo>,
    function_name: &str,
) -> (r: Option<(&'a Tool, String, String)>)
    ensures
        match r {
            Some(found) => subscriber_tool(subscriber_infos.deep_view(), function_name@) == Some(
                (found.0.deep_view(), found.1@, found.2@),
            ),
            None => subscriber_tool(subscriber_infos.deep_view(), function_name@) is None,
        },
{
    let ghost all = subscriber_infos.deep_view();
    let name = chars_of(function_name);
    let mut i: usize = 0;
    assert(all.skip(0) =~= all);
    while i < subscriber_infos.len()
        invariant
            i <= subscriber_infos@.len(),
            all == subscriber_infos.deep_view(),
            name@ == function_name@,
            owner_index(all, name@) == (match owner_index(all.skip(i as int), name@) {
                Some(k) => Some(k + i),
                None => None,
            }),
        decreases subscriber_infos.len() - i,
    {
        let info = &subscriber_infos[i];
        assert(all.skip(i as int)[0] == all[i as int]);
        assert(all[i as int] == info.deep_view());
        assert(all.skip(i as int).drop_first() =~= all.skip(i + 1));
        let suffix = concat("_", info.client_id.as_str());
        if ends_with(function_name, suffix.as_str()) {
            let client = chars_of(info.client_id.as_str());
            proof {
                reveal_strlit("_");
            }
            let end: usize = name.len() - client.len() - 1;
            let original_name = string_of(&name, 0, end);
            assert(original_name@ =~= name@.take(end as int));
            return match &info.tools {
                Some(tools) => match find_tool(tools, function_name) {
                    Some(j) => Some((&tools[j], original_name, info.client_id.clone())),
                    None => None,
                },
                None => None,
            };
        }
        i = i + 1;
    }
    None
}

// ---------------------------------------------------------------------------------------------
// Offering tools.

/// The tools with the client's id behind their names.
pub open spec fn with_client_id(tools: Seq<ToolModel>, client: Seq<char>) -> Seq<ToolModel> {
    tools.map_values(|tool: ToolModel| ToolModel { name: offered_name(tool.name, client), ..tool })
}

/// The subscriber with its id behind the names of its tools.
pub open spec fn with_offered_names(info: SessionSubscriberInfoModel) -> SessionSubscriberInfoModel {
    SessionSubscriberInfoModel {
        tools: match info.tools {
            Some(tools) => Some(with_client_id(tools, info.client_id)),
            None => None,
        },
        ..info
    }
}

/// The subscribers with their ids behind the names of their tools.
pub open spec fn all_with_offered_names(infos: Seq<SessionSubscriberInfoModel>) -> Seq<
    SessionSubscriberInfoModel,
> {
    infos.map_values(|info: SessionSubscriberInfoModel| with_offered_names(info))
}

/// Puts the client's id behind the names of the tools.
fn offer_tools(tools: &mut Vec<Tool>, client_id: &str)
    ensures
        final(tools).deep_view() == with_client_id(old(tools).deep_view(), client_id@),
{
    let ghost before = tools.deep_view();
    let mut i: usize = 0;
    while i < tools.len()
        invariant
            i <= tools@.len(),
            before == old(tools).deep_view(),
            tools@.len() == before.len(),
            forall|k: int| 0 <= k < i ==> #[trigger] tools@[k].deep_view() == with_client_id(before, client_id@)[k],
            forall|k: int| i <= k < before.len() ==> #[trigger] tools@[k].deep_view() == before[k],
        decreases tools.len() - i,
    {
        assert(tools@[i as int].deep_view() == before[i as int]);
        let longer = concat(concat(tools[i].name.as_str(), "_").as_str(), client_id);
        tools[i].name = longer;
        assert(tools@[i as int].deep_view() == with_client_id(before, client_id@)[i as int]);
        i = i + 1;
    }
    assert(tools.deep_view() =~= with_client_id(before, client_id@));
}

/// Puts the ids of the subscribers behind the names of their tools.
pub fn inject_client_id_into_tools(subscriber_infos: &mut Vec<SessionSubscriberInfo>)
    ensures
        final(subscriber_infos).deep_view() == all_with_offered_names(old(subscriber_infos).deep_view()),
{
    let ghost before = subscriber_infos.deep_view();
    let mut i: usize = 0;
    while i < subscriber_infos.len()
        invariant
            i <= subscriber_infos@.len(),
            before == old(subscriber_infos).deep_view(),
            subscriber_infos@.len() == before.len(),
            forall|k: int|
                0 <= k < i ==> #[trigger] subscriber_infos@[k].deep_view() == with_offered_names(before[k]),
            forall|k: int|
                i <= k < before.len() ==> #[trigger] subscriber_infos@[k].deep_view() == before[k],
        decreases subscriber_infos.len() - i,
    {
        let client_id = subscriber_infos[i].client_id.clone();
        let ghost untouched = subscriber_infos@[i as int].deep_view();
        let mut tools = subscriber_infos[i].tools.take();
        if let Some(mut offered) = tools {
            offer_tools(&mut offered, client_id.as_str());
            tools = Some(offered);
        } else {
            tools = None;
        }
        subscriber_infos[i].tools = tools;
        assert(subscriber_infos@[i as int].deep_view() == with_offered_names(untouched));
        i = i + 1;
    }
    assert(subscriber_infos.deep_view() =~= all_with_offered_names(before));
}

/// The tools of that type.
pub open spec fn of_type(tools: Seq<ToolModel>, tool_type: ToolType) -> Seq<ToolModel> {
    tools.filter(|tool: ToolModel| tool.tool_type == tool_type)
}

/// The tools of that type of all the subscribers, one subscriber after the other.
pub open spec fn offered_tools(
    infos: Seq<SessionSubscriberInfoModel>,
    tool_type: ToolType,
) -> Seq<ToolModel>
    decreases infos.len(),
{
    if infos.len() == 0 {
        Seq::empty()
    } else {
        offered_tools(infos.drop_last(), tool_type) + of_type(
            match infos.last().tools {
                Some(tools) => tools,
                None => Seq::empty(),
            },
            tool_type,
        )
    }
}

/// The tools of that type of all the subscribers, one subscriber after the other.
fn tools_offered(subscriber_infos: &Vec<SessionSubscriberInfo>, tool_type: ToolType) -> (r: Vec<Tool>)
    ensures
        r.deep_view() == offered_tools(subscriber_infos.deep_view(), tool_type),
{
    let ghost infos = subscriber_infos.deep_view();
    let ghost wanted = |tool: ToolModel| tool.tool_type == tool_type;
    let mut r: Vec<Tool> = Vec::new();
    let mut i: usize = 0;
    assert(r.deep_view() =~= offered_tools(infos.take(0), tool_type));
    while i < subscriber_infos.len()
        invariant
            i <= subscriber_infos@.len(),
            infos == subscriber_infos.deep_view(),
            wanted == (|tool: ToolModel| tool.tool_type == tool_type),
            r.deep_view() == offered_tools(infos.take(i as int), tool_type),
        decreases subscriber_infos.len() - i,
    {
        assert(infos.take(i + 1).drop_last() =~= infos.take(i as int));
        assert(infos.take(i + 1).last() == subscriber_infos@[i as int].deep_view());
        let ghost earlier = r.deep_view();
        if let Some(tools) = &subscriber_infos[i].tools {
            let ghost all = tools.deep_view();
            let mut j: usize = 0;
            proof {
                reveal(Seq::filter);
            }
            assert(r.deep_view() =~= earlier + all.take(0).filter(wanted));
            while j < tools.len()
                invariant
                    j <= tools@.len(),
                    all == tools.deep_view(),
                    wanted == (|tool: ToolModel| tool.tool_type == tool_type),
                    r.deep_view() == earlier + all.take(j as int).filter(wanted),
                decreases tools.len() - j,
            {
                proof {
                    reveal(Seq::filter);
                }
                assert(all.take(j + 1).drop_last() =~= all.take(j as int));
                assert(all.take(j + 1).last() == tools@[j as int].deep_view());
                let ghost before = r.deep_view();
                if tools[j].tool_type == tool_type {
                    r.push(tools[j].clone());
                    assert(r.deep_view() =~= before.push(tools@[j as int].deep_view()));
                    assert(r.deep_view() =~= earlier + all.take(j + 1).filter(wanted));
                }
                j = j + 1;
            }
            assert(all.take(all.len() as int) =~= all);
        } else {
            proof {
                reveal(Seq::filter);
            }
            assert(r.deep_view() =~= earlier + Seq::<ToolModel>::empty());
        }
        i = i + 1;
    }
    assert(infos.take(infos.len() as int) =~= infos);
    r
}

/// The tools that are offered through the model's own interface, if there are any.
pub fn generate_native_tools_from_subscribers(subscriber_infos: &Vec<SessionSubscriberInfo>) -> (r: Option<
    Vec<Tool>,
>)
    ensures
        ({
            let native = offered_tools(subscriber_infos.deep_view(), ToolType::Native);
            match r {
                Some(tools) => tools.deep_view() == native && native.len() > 0,
                None => native.len() == 0,
            }
        }),
{
    let tools = tools_offered(subscriber_infos, ToolType::Native);
    assert(tools.deep_view().len() == tools@.len());
    if tools.len() == 0 {
        None
    } else {
        Some(tools)
    }
}

// ---------------------------------------------------------------------------------------------
// Calls that a backend reports.

/// The call that a backend reports, as clients see it, if a subscriber has the tool.
pub open spec fn client_call(
    infos: Option<Seq<SessionSubscriberInfoModel>>,
    call: BackendToolCallModel,
) -> Option<ToolCallModel> {
    match infos {
        Some(infos) => match subscriber_tool(infos, call.name) {
            Some((_, name, client)) => Some(
                ToolCallModel {
                    id: Some(call.id),
                    name,
                    client_id: Some(client),
                    arguments: call.arguments,
                },
            ),
            None => None,
        },
        None => None,
    }
}

/// Whether the subscribers have the tools of all the calls.
pub open spec fn all_known(
    infos: Option<Seq<SessionSubscriberInfoModel>>,
    calls: Seq<BackendToolCallModel>,
) -> bool {
    forall|i: int| 0 <= i < calls.len() ==> client_call(infos, #[trigger] calls[i]) is Some
}

/// The calls that a backend reports, as clients see them.
pub open spec fn client_calls(
    infos: Option<Seq<SessionSubscriberInfoModel>>,
    calls: Seq<BackendToolCallModel>,
) -> Seq<ToolCallModel> {
    calls.map_values(|call: BackendToolCallModel| client_call(infos, call)->0)
}

/// The subscribers that a reference leads to.
pub open spec fn opt_infos(infos: Option<&Vec<SessionSubscriberInfo>>) -> Option<
    Seq<SessionSubscriberInfoModel>,
> {
    match infos {
        Some(infos) => Some(infos.deep_view()),
        None => None,
    }
}

/// The calls that a backend reports, as clients see them: with the client's id apart from the name.
pub fn backend_tool_calls_to_tool_calls(
    backend_calls: Vec<BackendToolCall>,
    subscriber_infos: Option<&Vec<SessionSubscriberInfo>>,
) -> (r: Result<Vec<ToolCall>, CoreError>)
    ensures
        if all_known(opt_infos(subscriber_infos), backend_calls.deep_view()) {
            r matches Ok(v) && v.deep_view() == client_calls(
                opt_infos(subscriber_infos),
                backend_calls.deep_view(),
            )
        } else {
            r == Err::<Vec<ToolCall>, _>(CoreError::ToolCallParse(ToolCallFault::ToolNotFound))
        },
{
    let ghost infos = opt_infos(subscriber_infos);
    let ghost calls = backend_calls.deep_view();
    let mut r: Vec<ToolCall> = Vec::new();
    let mut i: usize = 0;
    while i < backend_calls.len()
        invariant
            i <= backend_calls@.len(),
            infos == opt_infos(subscriber_infos),
            calls == backend_calls.deep_view(),
            r@.len() == i,
            forall|k: int| 0 <= k < i ==> client_call(infos, #[trigger] calls[k]) == Some(r@[k].deep_view()),
        decreases backend_calls.len() - i,
    {
        let call = &backend_calls[i];
        assert(calls[i as int] == call.deep_view());
        let found = match subscriber_infos {
            Some(subscriber_infos) => find_subscriber_tool(subscriber_infos, call.name.as_str()),
            None => None,
        };
        match found {
            Some((_, original_name, client_id)) => {
                r.push(
                    ToolCall {
                        id: Some(call.id.clone()),
                        name: original_name,
                        client_id: Some(client_id),
                        arguments: clone_value(&call.arguments),
                    },
                );
            },
            None => {
                return Err(CoreError::ToolCallParse(ToolCallFault::ToolNotFound));
            },
        }
        i = i + 1;
    }
    assert(r.deep_view() =~= client_calls(infos, calls));
    Ok(r)
}

// ---------------------------------------------------------------------------------------------
// Calls that stand in the text of a reply.

/// What opens a call in a text.
pub const TEXT_TOOL_CALL_HEADER: &'static str = "$$llmvm_tool$$ ";

/// What opens and closes a value of several lines.
pub const MULTILINE_TOKEN: &'static str = "$$multiline$$";

/// The kind of value that the schema gives for an argument, where it gives one.
pub open spec fn argument_type(schema: Json, name: Seq<char>) -> Option<Seq<char>> {
    match schema.member("properties"@) {
        Some(properties) => match properties.member(name) {
            Some(property) => match property.member("type"@) {
                Some(kind) => kind.text(),
                None => None,
            },
            None => None,
        },
        None => None,
    }
}

/// The value that the text of an argument stands for: a number where the schema wants an integer
/// and the text is one, else the text itself.
pub open spec fn argument_value(kind: Seq<char>, text: Seq<char>) -> Json {
    if kind == "integer"@ {
        match i64_in(text) {
            Some(n) => Json::Int(n as int),
            None => Json::Text(text),
        }
    } else {
        Json::Text(text)
    }
}

/// The members of an object; none for what is no object.
pub open spec fn members_of(j: Json) -> Map<Seq<char>, Json> {
    match j {
        Json::Object(m) => m,
        _ => no_members(),
    }
}

/// The call with one more argument, if the schema gives the type of it.
pub open spec fn with_argument(
    call: ToolCallModel,
    schema: Json,
    name: Seq<char>,
    text: Seq<char>,
) -> Result<ToolCallModel, ToolCallFault> {
    match argument_type(schema, name) {
        Some(kind) => Ok(
            ToolCallModel {
                arguments: Json::Object(
                    members_of(call.arguments).insert(name, argument_value(kind, text)),
                ),
                ..call
            },
        ),
        None => Err(ToolCallFault::PropertyType),
    }
}

/// Whether the place between two arguments goes on over that character.
pub open spec fn is_between_arguments(c: char) -> bool {
    is_white(c) || !(is_alnum(c) || c == ';')
}

/// The call that the text from `at` on completes, with the place after it. Arguments are a name
/// that starts with a letter or digit, an equals sign, and a value between quotes, or, from the
/// line after a multiline token, up to the next such token. A semicolon ends the call, and so does
/// the end of the text, where an argument that is not complete is dropped.
pub open spec fn completed_call(
    s: Seq<char>,
    at: int,
    call: ToolCallModel,
    schema: Json,
) -> Result<(ToolCallModel, int), ToolCallFault>
    decreases s.len() - at,
{
    proof {
        lemma_find_bounds(s, seq!['='], at + 1);
        let eq = find_from(s, seq!['='], at + 1)->0;
        lemma_find_bounds(s, seq!['"'], eq + 2);
        lemma_find_bounds(s, MULTILINE_TOKEN@, eq + 15);
        reveal_strlit("$$multiline$$");
    }
    if at < 0 || at >= s.len() {
        Ok((call, s.len() as int))
    } else if is_between_arguments(s[at]) {
        completed_call(s, at + 1, call, schema)
    } else if !is_alnum(s[at]) {
        Ok((call, at + 1))
    } else {
        match find_from(s, seq!['='], at + 1) {
            None => Ok((call, s.len() as int)),
            Some(eq) => {
                let name = s.subrange(at, eq);
                if eq + 1 >= s.len() {
                    Ok((call, s.len() as int))
                } else if s[eq + 1] == '"' {
                    match find_from(s, seq!['"'], eq + 2) {
                        None => Ok((call, s.len() as int)),
                        Some(end) => match with_argument(call, schema, name, s.subrange(eq + 2, end)) {
                            Ok(longer) => completed_call(s, end + 1, longer, schema),
                            Err(fault) => Err(fault),
                        },
                    }
                } else if s[eq + 1] != '$' {
                    Err(ToolCallFault::UnexpectedStart)
                } else if !occurs_at(s, MULTILINE_TOKEN@, eq + 1) {
                    Err(ToolCallFault::UnrecognizedToken)
                } else {
                    match find_from(s, MULTILINE_TOKEN@, eq + 15) {
                        None => Ok((call, s.len() as int)),
                        Some(end) => match with_argument(call, schema, name, s.subrange(eq + 15, end)) {
                            Ok(longer) => completed_call(s, end + 13, longer, schema),
                            Err(fault) => Err(fault),
                        },
                    }
                }
            },
        }
    }
}

/// A call ends after the place at which its arguments begin, and within the text.
pub proof fn lemma_completed_call_bounds(s: Seq<char>, at: int, call: ToolCallModel, schema: Json)
    ensures
        0 <= at <= s.len() ==> (completed_call(s, at, call, schema) matches Ok(found) ==> at <= found.1
            <= s.len()),
    decreases s.len() - at,
{
    if 0 <= at < s.len() {
        if is_between_arguments(s[at]) {
            lemma_completed_call_bounds(s, at + 1, call, schema);
        } else if is_alnum(s[at]) {
            lemma_find_bounds(s, seq!['='], at + 1);
            if let Some(eq) = find_from(s, seq!['='], at + 1) {
                let name = s.subrange(at, eq);
                lemma_find_bounds(s, seq!['"'], eq + 2);
                if let Some(end) = find_from(s, seq!['"'], eq + 2) {
                    if let Ok(longer) = with_argument(call, schema, name, s.subrange(eq + 2, end)) {
                        lemma_completed_call_bounds(s, end + 1, longer, schema);
                    }
                }
                lemma_find_bounds(s, MULTILINE_TOKEN@, eq + 15);
                reveal_strlit("$$multiline$$");
                if let Some(end) = find_from(s, MULTILINE_TOKEN@, eq + 15) {
                    if let Ok(longer) = with_argument(call, schema, name, s.subrange(eq + 15, end)) {
                        lemma_completed_call_bounds(s, end + 13, longer, schema);
                    }
                }
            }
        }
    }
}

/// A call without arguments.
pub open spec fn empty_call(name: Seq<char>, client: Seq<char>) -> ToolCallModel {
    ToolCallModel {
        id: None,
        name,
        client_id: Some(client),
        arguments: Json::Object(no_members()),
    }
}

/// What a text says about calls.
pub ghost enum TextCallsModel {
    Calls(Seq<ToolCallModel>),
    Fault(ToolCallFault),
    /// A header is not followed by a name with a colon.
    Unfinished,
}

/// The place at which the name of the called function starts, for a header found at `header` in a
/// search that began at `at`: as many characters further as there are bytes up to the end of the
/// header, or the end of the text.
pub open spec fn name_start(s: Seq<char>, at: int, header: int) -> int {
    let far = at + byte_len(s.subrange(at, header)) + 15;
    if far <= s.len() {
        far
    } else {
        s.len() as int
    }
}

/// The calls in the text from `at` on.
pub open spec fn calls_in(
    infos: Seq<SessionSubscriberInfoModel>,
    s: Seq<char>,
    at: int,
) -> TextCallsModel
    decreases s.len() - at,
{
    proof {
        lemma_find_bounds(s, TEXT_TOOL_CALL_HEADER@, at);
        let start = name_start(s, at, find_from(s, TEXT_TOOL_CALL_HEADER@, at)->0);
        lemma_find_bounds(s, seq![':'], start);
        let colon = find_from(s, seq![':'], start)->0;
        let (tool, name, client) = subscriber_tool(infos, s.subrange(start, colon))->0;
        lemma_completed_call_bounds(s, colon + 1, empty_call(name, client), tool.input_schema);
    }
    match find_from(s, TEXT_TOOL_CALL_HEADER@, at) {
        None => TextCallsModel::Calls(Seq::empty()),
        Some(header) => {
            let start = name_start(s, at, header);
            match find_from(s, seq![':'], start) {
                None => TextCallsModel::Unfinished,
                Some(colon) => match subscriber_tool(infos, s.subrange(start, colon)) {
                    None => TextCallsModel::Fault(ToolCallFault::NoSuchClientTool),
                    Some((tool, name, client)) => {
                        match completed_call(s, colon + 1, empty_call(name, client), tool.input_schema) {
                            Err(fault) => TextCallsModel::Fault(fault),
                            Ok((call, next)) => match calls_in(infos, s, next) {
                                TextCallsModel::Calls(rest) => TextCallsModel::Calls(
                                    seq![call] + rest,
                                ),
                                other => other,
                            },
                        }
                    },
                },
            }
        },
    }
}

/// What a text says about calls.
pub enum TextCalls {
    Calls(Vec<ToolCall>),
    Fault(ToolCallFault),
    /// A header is not followed by a name with a colon.
    Unfinished,
}

impl DeepView for TextCalls {
    type V = TextCallsModel;

    open spec fn deep_view(&self) -> TextCallsModel {
        match self {
            TextCalls::Calls(calls) => TextCallsModel::Calls(calls.deep_view()),
            TextCalls::Fault(fault) => TextCallsModel::Fault(*fault),
            TextCalls::Unfinished => TextCallsModel::Unfinished,
        }
    }
}

/// The first place from `from` on at which the character stands.
fn find_char(s: &Vec<char>, c: char, from: usize) -> (r: Option<usize>)
    ensures
        match r {
            Some(i) => find_from(s@, seq![c], from as int) == Some(i as int) && from <= i < s@.len(),
            None => find_from(s@, seq![c], from as int) is None,
        },
{
    let pattern: Vec<char> = vec![c];
    assert(pattern@ =~= seq![c]);
    proof {
        lemma_find_bounds(s@, seq![c], from as int);
    }
    find(s, &pattern, from)
}

/// A call without arguments of the tool that the name means, with the schema of the tool.
pub fn init_text_tool_call<'a>(
    subscriber_infos: &'a Vec<SessionSubscriberInfo>,
    function_name: &str,
) -> (r: Result<(ToolCall, &'a Value), ToolCallFault>)
    ensures
        match subscriber_tool(subscriber_infos.deep_view(), function_name@) {
            Some((tool, name, client)) => r matches Ok(found) && found.0.deep_view() == empty_call(
                name,
                client,
            ) && json(*found.1) == tool.input_schema,
            None => r == Err::<(ToolCall, &'a Value), _>(ToolCallFault::NoSuchClientTool),
        },
{
    match find_subscriber_tool(subscriber_infos, function_name) {
        Some((tool, original_name, client_id)) => {
            let call = ToolCall {
                id: None,
                name: original_name,
                client_id: Some(client_id),
                arguments: object_value(new_map()),
            };
            Ok((call, &tool.input_schema))
        },
        None => Err(ToolCallFault::NoSuchClientTool),
    }
}

/// The kind of value that the schema gives for an argument, where it gives one.
fn type_of_argument<'a>(schema: &'a Value, name: &str) -> (r: Option<&'a str>)
    ensures
        match r {
            Some(kind) => argument_type(json(*schema), name@) == Some(kind@),
            None => argument_type(json(*schema), name@) is None,
        },
{
    match get(schema, "properties") {
        Some(properties) => match get(properties, name) {
            Some(property) => match get(property, "type") {
                Some(kind) => as_str(kind),
                None => None,
            },
            None => None,
        },
        None => None,
    }
}

/// Sets an argument of the call. Where the schema does not give the type of the argument, the call
/// stays as it is.
pub fn insert_tool_call_argument(
    call: &mut ToolCall,
    schema: &Value,
    arg_name: &str,
    current_value: &str,
) -> (r: Result<(), ToolCallFault>)
    requires
        json(old(call).arguments) is Object,
    ensures
        match with_argument(old(call).deep_view(), json(*schema), arg_name@, current_value@) {
            Ok(longer) => r is Ok && final(call).deep_view() == longer,
            Err(fault) => r == Err::<(), _>(fault) && *final(call) == *old(call),
        },
{
    match type_of_argument(schema, arg_name) {
        Some(kind) => {
            let value = if same(kind, "integer") {
                match parse_i64(current_value) {
                    Some(n) => i64_value(n),
                    None => text_value(current_value.to_owned()),
                }
            } else {
                text_value(current_value.to_owned())
            };
            set_member(&mut call.arguments, arg_name.to_owned(), value);
            Ok(())
        },
        None => Err(ToolCallFault::PropertyType),
    }
}

/// Reads arguments into the call up to its end. Gives the place after the call.
fn complete_call(s: &Vec<char>, at: usize, call: &mut ToolCall, schema: &Value) -> (r: Result<
    usize,
    ToolCallFault,
>)
    requires
        at <= s@.len(),
        json(old(call).arguments) is Object,
    ensures
        match completed_call(s@, at as int, old(call).deep_view(), json(*schema)) {
            Ok((found, next)) => r == Ok::<usize, ToolCallFault>(next as usize) && at <= next <= s@.len()
                && final(call).deep_view() == found,
            Err(fault) => r == Err::<usize, _>(fault),
        },
{
    let token = chars_of(MULTILINE_TOKEN);
    let ghost start = call.deep_view();
    let n: usize = s.len();
    let mut i: usize = at;
    proof {
        lemma_completed_call_bounds(s@, at as int, start, json(*schema));
        reveal_strlit("$$multiline$$");
    }
    while i < n
        invariant
            at <= i <= n,
            n == s@.len(),
            start == old(call).deep_view(),
            token@ == MULTILINE_TOKEN@,
            token@.len() == 13,
            json(call.arguments) is Object,
            completed_call(s@, at as int, start, json(*schema)) == completed_call(
                s@,
                i as int,
                call.deep_view(),
                json(*schema),
            ),
        decreases n - i,
    {
        let c = s[i];
        if c.is_whitespace() || !(c.is_alphanumeric() || c == ';') {
            i = i + 1;
            continue;
        }
        if !c.is_alphanumeric() {
            return Ok(i + 1);
        }
        let eq = match find_char(s, '=', i + 1) {
            Some(eq) => eq,
            None => {
                return Ok(n);
            },
        };
        if eq + 1 >= n {
            return Ok(n);
        }
        let name = string_of(s, i, eq);
        let first = s[eq + 1];
        if first == '"' {
            match find_char(s, '"', eq + 2) {
                Some(end) => {
                    let value = string_of(s, eq + 2, end);
                    match insert_tool_call_argument(call, schema, name.as_str(), value.as_str()) {
                        Ok(_) => {
                            i = end + 1;
                        },
                        Err(fault) => {
                            return Err(fault);
                        },
                    }
                },
                None => {
                    return Ok(n);
                },
            }
        } else if first != '$' {
            return Err(ToolCallFault::UnexpectedStart);
        } else if !matches_at(s, &token, eq + 1) {
            return Err(ToolCallFault::UnrecognizedToken);
        } else {
            if n - eq < 15 {
                return Ok(n);
            }
            proof {
                lemma_find_bounds(s@, token@, eq + 15);
            }
            match find(s, &token, eq + 15) {
                Some(end) => {
                    let value = string_of(s, eq + 15, end);
                    match insert_tool_call_argument(call, schema, name.as_str(), value.as_str()) {
                        Ok(_) => {
                            i = end + 13;
                        },
                        Err(fault) => {
                            return Err(fault);
                        },
                    }
                },
                None => {
                    return Ok(n);
                },
            }
        }
    }
    Ok(n)
}

/// What a text says about calls of the tools of the subscribers.
pub fn read_text_tool_calls(subscriber_infos: &Vec<SessionSubscriberInfo>, text: &str) -> (r: TextCalls)
    ensures
        r.deep_view() == calls_in(subscriber_infos.deep_view(), text@, 0),
{
    let s = chars_of(text);
    let header = chars_of(TEXT_TOOL_CALL_HEADER);
    let ghost infos = subscriber_infos.deep_view();
    let mut calls: Vec<ToolCall> = Vec::new();
    let mut i: usize = 0;
    proof {
        reveal_strlit("$$llmvm_tool$$ ");
    }
    while i <= s.len()
        invariant
            i <= s@.len(),
            s@ == text@,
            infos == subscriber_infos.deep_view(),
            header@ == TEXT_TOOL_CALL_HEADER@,
            header@.len() == 15,
            calls_in(infos, s@, 0) == (match calls_in(infos, s@, i as int) {
                TextCallsModel::Calls(rest) => TextCallsModel::Calls(calls.deep_view() + rest),
                other => other,
            }),
        decreases s.len() - i,
    {
        proof {
            lemma_find_bounds(s@, header@, i as int);
        }
        let at = match find(&s, &header, i) {
            Some(at) => at,
            None => {
                assert(calls.deep_view() + Seq::<ToolCallModel>::empty() =~= calls.deep_view());
                return TextCalls::Calls(calls);
            },
        };
        let passed = string_of(&s, i, at);
        let skipped: usize = passed.as_str().as_bytes().len().saturating_add(15);
        let start: usize = if skipped <= s.len() - i {
            i + skipped
        } else {
            s.len()
        };
        assert(start == name_start(s@, i as int, at as int));
        let colon = match find_char(&s, ':', start) {
            Some(colon) => colon,
            None => {
                return TextCalls::Unfinished;
            },
        };
        let name = string_of(&s, start, colon);
        let (mut call, schema) = match init_text_tool_call(subscriber_infos, name.as_str()) {
            Ok(found) => found,
            Err(fault) => {
                return TextCalls::Fault(fault);
            },
        };
        let next = match complete_call(&s, colon + 1, &mut call, schema) {
            Ok(next) => next,
            Err(fault) => {
                return TextCalls::Fault(fault);
            },
        };
        let ghost before = calls.deep_view();
        calls.push(call);
        assert(calls.deep_view() =~= before.push(call.deep_view()));
        proof {
            if let TextCallsModel::Calls(rest) = calls_in(infos, s@, next as int) {
                assert(before + (seq![call.deep_view()] + rest) =~= calls.deep_view() + rest);
            }
        }
        i = next;
    }
    TextCalls::Calls(calls)
}

/// The calls of the tools of the subscribers that stand in a text.
pub fn extract_text_tool_calls(subscriber_infos: &Vec<SessionSubscriberInfo>, text: &str) -> (r: Result<
    Vec<ToolCall>,
    CoreError,
>)
    requires
        !(calls_in(subscriber_infos.deep_view(), text@, 0) is Unfinished),
    ensures
        match calls_in(subscriber_infos.deep_view(), text@, 0) {
            TextCallsModel::Calls(calls) => r matches Ok(v) && v.deep_view() == calls,
            TextCallsModel::Fault(fault) => r == Err::<Vec<ToolCall>, _>(
                CoreError::ToolCallParse(fault),
            ),
            TextCallsModel::Unfinished => false,
        },
{
    match read_text_tool_calls(subscriber_infos, text) {
        TextCalls::Calls(calls) => Ok(calls),
        TextCalls::Fault(fault) => Err(CoreError::ToolCallParse(fault)),
        TextCalls::Unfinished => Ok(Vec::new()),
    }
}

/// The calls of the tools of the subscribers that stand in a text, or nothing where the text breaks
/// off in the name of a function.
pub fn try_extract_text_tool_calls(
    subscriber_infos: &Vec<SessionSubscriberInfo>,
    text: &str,
) -> (r: Option<Result<Vec<ToolCall>, CoreError>>)
    ensures
        match calls_in(subscriber_infos.deep_view(), text@, 0) {
            TextCallsModel::Calls(calls) => r matches Some(Ok(v)) && v.deep_view() == calls,
            TextCallsModel::Fault(fault) => r == Some(
                Err::<Vec<ToolCall>, _>(CoreError::ToolCallParse(fault)),
            ),
            TextCallsModel::Unfinished => r is None,
        },
{
    match read_text_tool_calls(subscriber_infos, text) {
        TextCalls::Unfinished => None,
        _ => Some(extract_text_tool_calls(subscriber_infos, text)),
    }
}

// ---------------------------------------------------------------------------------------------
// Describing tools in a prompt.

/// What a prompt says of a tool whose calls stand in the text.
#[derive(Debug)]
pub struct TextToolPromptParameters {
    pub name: String,
    pub description: String,
    pub arguments: Vec<String>,
    pub usage_format: String,
}

/// What a [`TextToolPromptParameters`] says.
#[verifier::ext_equal]
pub ghost struct TextToolPromptParametersModel {
    pub name: Seq<char>,
    pub description: Seq<char>,
    pub arguments: Seq<Seq<char>>,
    pub usage_format: Seq<char>,
}

impl DeepView for TextToolPromptParameters {
    type V = TextToolPromptParametersModel;

    open spec fn deep_view(&self) -> TextToolPromptParametersModel {
        TextToolPromptParametersModel {
            name: self.name@,
            description: self.description@,
            arguments: texts(self.arguments@),
            usage_format: self.usage_format@,
        }
    }
}

/// The properties that a schema describes, if it describes any.
pub open spec fn properties_of(schema: Json) -> Option<Map<Seq<char>, Json>> {
    match schema.member("properties"@) {
        Some(Json::Object(properties)) => Some(properties),
        _ => None,
    }
}

/// The description of a property.
pub open spec fn property_description(property: Json) -> Seq<char> {
    match property.member("description"@) {
        Some(Json::Text(s)) => s,
        _ => ""@,
    }
}

/// The lines that describe the properties which are objects, for the first `n` names.
pub open spec fn argument_lines(
    properties: Map<Seq<char>, Json>,
    names: Seq<Seq<char>>,
) -> Seq<Seq<char>>
    decreases names.len(),
{
    if names.len() == 0 {
        Seq::empty()
    } else {
        let before = argument_lines(properties, names.drop_last());
        let name = names.last();
        if properties[name] is Object {
            before.push(name + ": "@ + property_description(properties[name]) + "\n"@)
        } else {
            before
        }
    }
}

/// Whether the description asks for a value of several lines.
pub open spec fn is_multiline(property: Json) -> bool {
    contains(lowercase(lowercase(property_description(property))), "multiline"@)
}

/// How an argument is written, with a placeholder for its value.
pub open spec fn argument_usage(name: Seq<char>, property: Json) -> Seq<char> {
    if is_multiline(property) {
        name + "=$$multiline$$\n<"@ + name + " value>\n$$multiline$$"@
    } else {
        name + "=\"value of "@ + name + "\""@
    }
}

/// How a call is written, with placeholders for the values.
pub open spec fn usage_format(
    tool: Seq<char>,
    properties: Map<Seq<char>, Json>,
    names: Seq<Seq<char>>,
) -> Seq<char> {
    TEXT_TOOL_CALL_HEADER@ + tool + ":"@ + join(
        names.map_values(|name: Seq<char>| argument_usage(name, properties[name])),
        " "@,
    ) + ";\n\n"@
}

/// What a prompt says of a tool, if the schema of the tool describes properties.
pub open spec fn text_tool_parameters(tool: ToolModel) -> Option<TextToolPromptParametersModel> {
    match properties_of(tool.input_schema) {
        Some(properties) => Some(
            TextToolPromptParametersModel {
                name: tool.name,
                description: tool.description,
                arguments: argument_lines(properties, names(properties)),
                usage_format: usage_format(tool.name, properties, names(properties)),
            },
        ),
        None => None,
    }
}

/// What a prompt says of the tools whose schemas describe properties.
pub open spec fn all_text_tool_parameters(tools: Seq<ToolModel>) -> Seq<TextToolPromptParametersModel>
    decreases tools.len(),
{
    if tools.len() == 0 {
        Seq::empty()
    } else {
        let before = all_text_tool_parameters(tools.drop_last());
        match text_tool_parameters(tools.last()) {
            Some(parameters) => before.push(parameters),
            None => before,
        }
    }
}

/// The description of a property.
fn description_of(property: &Value) -> (r: &str)
    ensures
        r@ == property_description(json(*property)),
{
    match get(property, "description") {
        Some(description) => match as_str(description) {
            Some(s) => s,
            None => "",
        },
        None => "",
    }
}

/// How an argument is written, with a placeholder for its value.
fn usage_of_argument(name: &str, property: &Value) -> (r: String)
    ensures
        r@ == argument_usage(name@, json(*property)),
{
    let description = description_of(property).to_lowercase().as_str().to_lowercase();
    let mut r = name.to_owned();
    if contains_text(description.as_str(), "multiline") {
        r.append("=$$multiline$$\n<");
        r.append(name);
        r.append(" value>\n$$multiline$$");
    } else {
        r.append("=\"value of ");
        r.append(name);
        r.append("\"");
    }
    r
}

/// What a prompt says of a tool, if the schema of the tool describes properties.
fn parameters_of_text_tool(tool: &Tool) -> (r: Option<TextToolPromptParameters>)
    ensures
        match r {
            Some(parameters) => text_tool_parameters(tool.deep_view()) == Some(parameters.deep_view()),
            None => text_tool_parameters(tool.deep_view()) is None,
        },
{
    let properties = match get(&tool.input_schema, "properties") {
        Some(properties) => match as_object(properties) {
            Some(properties) => properties,
            None => {
                return None;
            },
        },
        None => {
            return None;
        },
    };
    let keys = map_keys(properties);
    let ghost all = members(*properties);
    let ghost key_names = texts(keys@);
    proof {
        lemma_names(all, key_names);
    }
    let ghost usages = key_names.map_values(|name: Seq<char>| argument_usage(name, all[name]));
    let mut arguments: Vec<String> = Vec::new();
    let mut props: Vec<String> = Vec::new();
    let mut i: usize = 0;
    assert(texts(arguments@) =~= argument_lines(all, key_names.take(0)));
    while i < keys.len()
        invariant
            i <= keys@.len(),
            all == members(*properties),
            key_names == texts(keys@),
            are_names(all, key_names),
            usages == key_names.map_values(|name: Seq<char>| argument_usage(name, all[name])),
            texts(arguments@) == argument_lines(all, key_names.take(i as int)),
            texts(props@) == usages.take(i as int),
        decreases keys.len() - i,
    {
        let name = keys[i].as_str();
        assert(key_names[i as int] == name@);
        assert(all.contains_key(key_names[i as int]));
        assert(key_names.take(i + 1).drop_last() =~= key_names.take(i as int));
        assert(key_names.take(i + 1).last() == name@);
        if let Some(property) = map_get(properties, name) {
            let ghost lines = texts(arguments@);
            if as_object(property).is_some() {
                let mut line = name.to_owned();
                line.append(": ");
                line.append(description_of(property));
                line.append("\n");
                let ghost written = line@;
                arguments.push(line);
                assert(texts(arguments@) =~= lines.push(written));
            }
            let usage = usage_of_argument(name, property);
            let ghost written = usage@;
            let ghost earlier = texts(props@);
            props.push(usage);
            assert(texts(props@) =~= earlier.push(written));
            assert(usages.take(i + 1) =~= usages.take(i as int).push(usages[i as int]));
        }
        i = i + 1;
    }
    assert(key_names.take(key_names.len() as int) =~= key_names);
    assert(usages.take(usages.len() as int) =~= usages);
    let mut usage_format = concat(TEXT_TOOL_CALL_HEADER, tool.name.as_str());
    usage_format.append(":");
    usage_format.append(join_with(&props, " ").as_str());
    usage_format.append(";\n\n");
    Some(
        TextToolPromptParameters {
            name: tool.name.clone(),
            description: tool.description.clone(),
            arguments,
            usage_format,
        },
    )
}

/// What a prompt says of the tools whose calls stand in the text.
pub fn generate_text_tools_prompt_parameters(subscriber_infos: &Vec<SessionSubscriberInfo>) -> (r: Vec<
    TextToolPromptParameters,
>)
    ensures
        r.deep_view() == all_text_tool_parameters(
            offered_tools(subscriber_infos.deep_view(), ToolType::Text),
        ),
{
    let tools = tools_offered(subscriber_infos, ToolType::Text);
    let ghost all = tools.deep_view();
    let mut r: Vec<TextToolPromptParameters> = Vec::new();
    let mut i: usize = 0;
    assert(r.deep_view() =~= all_text_tool_parameters(all.take(0)));
    while i < tools.len()
        invariant
            i <= tools@.len(),
            all == tools.deep_view(),
            r.deep_view() == all_text_tool_parameters(all.take(i as int)),
        decreases tools.len() - i,
    {
        assert(all.take(i + 1).drop_last() =~= all.take(i as int));
        assert(all.take(i + 1).last() == tools@[i as int].deep_view());
        let ghost before = r.deep_view();
        if let Some(parameters) = parameters_of_text_tool(&tools[i]) {
            let ghost said = parameters.deep_view();
            r.push(parameters);
            assert(r.deep_view() =~= before.push(said));
        }
        i = i + 1;
    }
    assert(all.take(all.len() as int) =~= all);
    r
}

// ---------------------------------------------------------------------------------------------
// Waiting for the results of calls.

/// A call that was made, with its result once that is known.
#[derive(Debug)]
pub struct PendingCall {
    pub id: String,
    pub result: Option<ToolCallResult>,
}

/// What a [`PendingCall`] says.
#[verifier::ext_equal]
pub ghost struct PendingCallModel {
    pub id: Seq<char>,
    pub result: Option<ToolCallResultModel>,
}

impl DeepView for PendingCall {
    type V = PendingCallModel;

    open spec fn deep_view(&self) -> PendingCallModel {
        PendingCallModel { id: self.id@, result: self.result.deep_view() }
    }
}

/// Waits for the results of the calls of one reply, and puts them into the thread.
#[derive(Debug)]
pub struct ToolCallHelper {
    /// The calls, in the order of their ids in the reply; no id stands twice.
    pub tool_results: Vec<PendingCall>,
    pub client_id: Option<String>,
    pub thread_id: String,
}

/// The texts without those that stand earlier already.
pub open spec fn distinct(ids: Seq<Seq<char>>) -> Seq<Seq<char>>
    decreases ids.len(),
{
    if ids.len() == 0 {
        Seq::empty()
    } else {
        let before = distinct(ids.drop_last());
        if before.contains(ids.last()) {
            before
        } else {
            before.push(ids.last())
        }
    }
}

/// The last of the results that is for that call.
pub open spec fn last_result(results: Seq<ToolCallResultModel>, id: Seq<char>) -> Option<
    ToolCallResultModel,
>
    decreases results.len(),
{
    if results.len() == 0 {
        None
    } else if results.last().id == id {
        Some(results.last())
    } else {
        last_result(results.drop_last(), id)
    }
}

/// The calls with the results that came in. Results of other calls do not count.
pub open spec fn with_results(
    calls: Seq<PendingCallModel>,
    results: Seq<ToolCallResultModel>,
) -> Seq<PendingCallModel> {
    calls.map_values(
        |call: PendingCallModel|
            match last_result(results, call.id) {
                Some(result) => PendingCallModel { id: call.id, result: Some(result) },
                None => call,
            },
    )
}

/// Whether every call has its result.
pub open spec fn is_finished(calls: Seq<PendingCallModel>) -> bool {
    forall|i: int| 0 <= i < calls.len() ==> (#[trigger] calls[i]).result is Some
}

impl ToolCallHelper {
    /// The calls that the helper waits for.
    pub open spec fn calls(self) -> Seq<PendingCallModel> {
        self.tool_results.deep_view()
    }

    /// A helper that waits for those calls and has no result yet.
    pub fn new(tool_call_ids: Vec<String>, client_id: Option<String>, thread_id: String) -> (r: Self)
        ensures
            r.calls() == distinct(texts(tool_call_ids@)).map_values(
                |id: Seq<char>| PendingCallModel { id, result: None },
            ),
            r.client_id == client_id,
            r.thread_id == thread_id,
    {
        let ghost ids = texts(tool_call_ids@);
        let mut calls: Vec<PendingCall> = Vec::new();
        let mut i: usize = 0;
        while i < tool_call_ids.len()
            invariant
                i <= tool_call_ids@.len(),
                ids == texts(tool_call_ids@),
                calls@.len() == distinct(ids.take(i as int)).len(),
                forall|k: int|
                    0 <= k < calls@.len() ==> (#[trigger] calls@[k]).id@ == distinct(ids.take(i as int))[k]
                        && calls@[k].result is None,
            decreases tool_call_ids.len() - i,
        {
            assert(ids.take(i + 1).drop_last() =~= ids.take(i as int));
            assert(ids.take(i + 1).last() == tool_call_ids@[i as int]@);
            let id = tool_call_ids[i].clone();
            let ghost before = distinct(ids.take(i as int));
            if has_call(&calls, id.as_str()) {
                assert(before.contains(id@)) by {
                    let k = choose|k: int| 0 <= k < calls@.len() && (#[trigger] calls@[k]).id@ == id@;
                    assert(before[k] == id@);
                }
            } else {
                assert(!before.contains(id@)) by {
                    if before.contains(id@) {
                        let k = choose|k: int| 0 <= k < before.len() && before[k] == id@;
                        assert(calls@[k].id@ == id@);
                    }
                }
                calls.push(PendingCall { id, result: None });
            }
            i = i + 1;
        }
        assert(ids.take(ids.len() as int) =~= ids);
        assert(calls.deep_view() =~= distinct(ids).map_values(
            |id: Seq<char>| PendingCallModel { id, result: None },
        ));
        ToolCallHelper { tool_results: calls, client_id, thread_id }
    }

    /// Takes up the results that a subscriber reports. Gives whether every call has its result now.
    pub fn receive(&mut self, tool_call_results: &Vec<ToolCallResult>) -> (r: bool)
        ensures
            final(self).calls() == with_results(old(self).calls(), tool_call_results.deep_view()),
            final(self).client_id == old(self).client_id,
            final(self).thread_id == old(self).thread_id,
            r == is_finished(final(self).calls()),
    {
        let ghost before = self.calls();
        let ghost results = tool_call_results.deep_view();
        let ghost after = with_results(before, results);
        let mut all = true;
        let mut i: usize = 0;
        while i < self.tool_results.len()
            invariant
                i <= self.tool_results@.len(),
                before == old(self).calls(),
                results == tool_call_results.deep_view(),
                after == with_results(before, results),
                self.tool_results@.len() == before.len(),
                self.client_id == old(self).client_id,
                self.thread_id == old(self).thread_id,
                forall|k: int| 0 <= k < i ==> #[trigger] self.tool_results@[k].deep_view() == after[k],
                forall|k: int|
                    i <= k < before.len() ==> #[trigger] self.tool_results@[k].deep_view() == before[k],
                all == (forall|k: int| 0 <= k < i ==> (#[trigger] after[k]).result is Some),
            decreases self.tool_results.len() - i,
        {
            assert(self.tool_results@[i as int].deep_view() == before[i as int]);
            if let Some(found) = result_for(tool_call_results, self.tool_results[i].id.as_str()) {
                self.tool_results[i].result = Some(found);
            }
            assert(self.tool_results@[i as int].deep_view() == after[i as int]);
            all = all && self.tool_results[i].result.is_some();
            i = i + 1;
        }
        assert(self.calls() =~= after);
        all
    }

    /// The message with the results of the calls, in the order of the calls.
    pub fn into_message(self) -> (r: Message)
        requires
            is_finished(self.calls()),
        ensures
            r.deep_view() == (MessageModel {
                client_id: self.client_id.deep_view(),
                role: MessageRole::User,
                content: None,
                tool_calls: None,
                tool_call_results: Some(
                    self.calls().map_values(|call: PendingCallModel| call.result->0),
                ),
            }),
    {
        let ghost calls = self.calls();
        let mut results: Vec<ToolCallResult> = Vec::new();
        let mut i: usize = 0;
        while i < self.tool_results.len()
            invariant
                i <= self.tool_results@.len(),
                calls == self.calls(),
                is_finished(calls),
                results@.len() == i,
                forall|k: int| 0 <= k < i ==> Some((#[trigger] results@[k]).deep_view()) == calls[k].result,
            decreases self.tool_results.len() - i,
        {
            assert(calls[i as int] == self.tool_results@[i as int].deep_view());
            if let Some(result) = &self.tool_results[i].result {
                results.push(result.clone());
            }
            i = i + 1;
        }
        assert(results.deep_view() =~= calls.map_values(|call: PendingCallModel| call.result->0));
        Message {
            client_id: self.client_id,
            role: MessageRole::User,
            content: None,
            tool_calls: None,
            tool_call_results: Some(results),
        }
    }
}

/// Whether one of the calls has that id.
fn has_call(calls: &Vec<PendingCall>, id: &str) -> (r: bool)
    ensures
        r == exists|k: int| 0 <= k < calls@.len() && (#[trigger] calls@[k]).id@ == id@,
{
    let mut i: usize = 0;
    while i < calls.len()
        invariant
            i <= calls@.len(),
            forall|k: int| 0 <= k < i ==> (#[trigger] calls@[k]).id@ != id@,
        decreases calls.len() - i,
    {
        if same(calls[i].id.as_str(), id) {
            return true;
        }
        i = i + 1;
    }
    false
}

/// The last of the results that is for that call.
fn result_for(results: &Vec<ToolCallResult>, id: &str) -> (r: Option<ToolCallResult>)
    ensures
        r.deep_view() == last_result(results.deep_view(), id@),
{
    let ghost all = results.deep_view();
    let mut i: usize = results.len();
    assert(all.take(all.len() as int) =~= all);
    while i > 0
        invariant
            i <= results@.len(),
            all == results.deep_view(),
            last_result(all, id@) == last_result(all.take(i as int), id@),
        decreases i,
    {
        i = i - 1;
        assert(all.take(i + 1).drop_last() =~= all.take(i as int));
        assert(all.take(i + 1).last() == results@[i as int].deep_view());
        if same(results[i].id.as_str(), id) {
            return Some(results[i].clone());
        }
    }
    None
}

// ---------------------------------------------------------------------------------------------
// Laws.

proof fn lemma_owner(infos: Seq<SessionSubscriberInfoModel>, name: Seq<char>, i: int)
    requires
        0 <= i < infos.len(),
        is_name_of(infos[i].client_id, name),
        forall|k: int| 0 <= k < i ==> !is_name_of((#[trigger] infos[k]).client_id, name),
    ensures
        owner_index(infos, name) == Some(i),
    decreases infos.len(),
{
    if i > 0 {
        assert(!is_name_of(infos[0].client_id, name));
        assert forall|k: int| 0 <= k < i - 1 implies !is_name_of(
            (#[trigger] infos.drop_first()[k]).client_id,
            name,
        ) by {
            assert(infos.drop_first()[k] == infos[k + 1]);
        }
        lemma_owner(infos.drop_first(), name, i - 1);
    }
}

proof fn lemma_tool(tools: Seq<ToolModel>, name: Seq<char>, j: int)
    requires
        0 <= j < tools.len(),
        tools[j].name == name,
        forall|k: int| 0 <= k < j ==> (#[trigger] tools[k]).name != name,
    ensures
        tool_index(tools, name) == Some(j),
    decreases tools.len(),
{
    if j > 0 {
        assert(tools[0].name != name);
        assert forall|k: int| 0 <= k < j - 1 implies (#[trigger] tools.drop_first()[k]).name != name by {
            assert(tools.drop_first()[k] == tools[k + 1]);
        }
        lemma_tool(tools.drop_first(), name, j - 1);
    }
}

/// A call under the name that a tool was offered under finds that tool, its own name and its client,
/// unless the name is also one of an earlier subscriber.
pub proof fn law_offered_tool_is_found(infos: Seq<SessionSubscriberInfoModel>, i: int, j: int)
    requires
        0 <= i < infos.len(),
        infos[i].tools is Some,
        0 <= j < infos[i].tools->0.len(),
        forall|k: int| 0 <= k < j ==> (#[trigger] infos[i].tools->0[k]).name != infos[i].tools->0[j].name,
        forall|k: int|
            0 <= k < i ==> !is_name_of(
                (#[trigger] infos[k]).client_id,
                offered_name(infos[i].tools->0[j].name, infos[i].client_id),
            ),
    ensures
        ({
            let tool = infos[i].tools->0[j];
            let client = infos[i].client_id;
            let name = offered_name(tool.name, client);
            subscriber_tool(all_with_offered_names(infos), name) == Some(
                ((ToolModel { name, ..tool }), tool.name, client),
            )
        }),
{
    let tool = infos[i].tools->0[j];
    let client = infos[i].client_id;
    let name = offered_name(tool.name, client);
    let offered = all_with_offered_names(infos);
    let tools = offered[i].tools->0;
    reveal_strlit("_");
    assert(("_"@ + client).is_suffix_of(name)) by {
        assert(name.skip(tool.name.len() as int) =~= "_"@ + client);
        assert(name.subrange(tool.name.len() as int, name.len() as int) =~= "_"@ + client);
    }
    assert(tools[j] == (ToolModel { name, ..tool }));
    assert forall|k: int| 0 <= k < j implies (#[trigger] tools[k]).name != name by {
        let other = infos[i].tools->0[k].name;
        if offered_name(other, client) == name {
            assert(other.len() == tool.name.len());
            assert(other =~= name.take(tool.name.len() as int)) by {
                assert(offered_name(other, client).take(tool.name.len() as int) =~= other);
            }
            assert(tool.name =~= name.take(tool.name.len() as int));
        }
    }
    lemma_tool(tools, name, j);
    assert forall|k: int| 0 <= k < i implies !is_name_of((#[trigger] offered[k]).client_id, name) by {
        assert(offered[k].client_id == infos[k].client_id);
    }
    lemma_owner(offered, name, i);
    assert(name.take(name.len() - client.len() - 1) =~= tool.name);
}

/// An argument as it is written in a call: between quotes, or between multiline tokens.
pub ghost enum WrittenArgument {
    Quoted(Seq<char>, Seq<char>),
    Multiline(Seq<char>, Seq<char>),
}

impl WrittenArgument {
    /// The name of the argument.
    pub open spec fn name(self) -> Seq<char> {
        match self {
            WrittenArgument::Quoted(name, _) => name,
            WrittenArgument::Multiline(name, _) => name,
        }
    }

    /// The value of the argument.
    pub open spec fn value(self) -> Seq<char> {
        match self {
            WrittenArgument::Quoted(_, value) => value,
            WrittenArgument::Multiline(_, value) => value,
        }
    }

    /// The argument as it is written.
    pub open spec fn written(self) -> Seq<char> {
        match self {
            WrittenArgument::Quoted(name, value) => name + seq!['=', '"'] + value + seq!['"'],
            WrittenArgument::Multiline(name, value) => name + seq!['='] + MULTILINE_TOKEN@ + seq!['\n']
                + value + MULTILINE_TOKEN@,
        }
    }

    /// Whether the name can be told from what surrounds it, and the value from what ends it.
    pub open spec fn is_plain(self) -> bool {
        &&& self.name().len() > 0
        &&& is_alnum(self.name()[0])
        &&& !is_white(self.name()[0])
        &&& !self.name().contains('=')
        &&& match self {
            WrittenArgument::Quoted(_, value) => !value.contains('"'),
            WrittenArgument::Multiline(_, value) => forall|k: int|
                0 <= k < value.len() ==> !#[trigger] occurs_at(value + MULTILINE_TOKEN@, MULTILINE_TOKEN@, k),
        }
    }
}

/// The arguments with a space between them.
pub open spec fn written_arguments(arguments: Seq<WrittenArgument>) -> Seq<char>
    decreases arguments.len(),
{
    if arguments.len() == 0 {
        Seq::empty()
    } else if arguments.len() == 1 {
        arguments[0].written()
    } else {
        arguments[0].written() + seq![' '] + written_arguments(arguments.drop_first())
    }
}

/// A call as it is written.
pub open spec fn written_call(function: Seq<char>, arguments: Seq<WrittenArgument>) -> Seq<char> {
    TEXT_TOOL_CALL_HEADER@ + function + seq![':'] + written_arguments(arguments) + seq![';']
}

/// The call with the arguments set one after the other.
pub open spec fn with_arguments(
    call: ToolCallModel,
    schema: Json,
    arguments: Seq<WrittenArgument>,
) -> ToolCallModel
    decreases arguments.len(),
{
    if arguments.len() == 0 {
        call
    } else {
        with_arguments(
            with_argument(call, schema, arguments[0].name(), arguments[0].value())->Ok_0,
            schema,
            arguments.drop_first(),
        )
    }
}

proof fn lemma_first_argument(
    s: Seq<char>,
    at: int,
    call: ToolCallModel,
    schema: Json,
    argument: WrittenArgument,
    tail: Seq<char>,
)
    requires
        0 <= at <= s.len(),
        s.skip(at) == argument.written() + tail,
        argument.is_plain(),
        argument_type(schema, argument.name()) is Some,
    ensures
        completed_call(s, at, call, schema) == completed_call(
            s,
            at + argument.written().len(),
            with_argument(call, schema, argument.name(), argument.value())->Ok_0,
            schema,
        ),
{
    let name = argument.name();
    let value = argument.value();
    let written = argument.written();
    let eq = at + name.len();
    let token = MULTILINE_TOKEN@;
    reveal_strlit("$$multiline$$");
    assert(s.skip(at).len() == s.len() - at);
    assert((written + tail).len() == written.len() + tail.len());
    assert forall|k: int| 0 <= k < written.len() implies s[at + k] == #[trigger] written[k] by {
        assert(s.skip(at)[k] == (written + tail)[k]);
    }
    assert forall|k: int| at <= k < eq implies #[trigger] s[k] != '=' by {
        assert(s[at + (k - at)] == written[k - at]);
        assert(written[k - at] == name[k - at]);
        assert(name.contains(name[k - at]));
    }
    assert(s[at] == name[0]) by {
        assert(s[at + 0] == written[0]);
    }
    assert(s[eq] == '=') by {
        assert(s[at + name.len()] == written[name.len() as int]);
    }
    lemma_char_found(s, '=', at + 1, eq);
    assert(s.subrange(at, eq) =~= name) by {
        assert forall|k: int| 0 <= k < name.len() implies s[at + k] == name[k] by {
            assert(s[at + k] == written[k]);
        }
    }
    match argument {
        WrittenArgument::Quoted(_, _) => {
            let end = eq + 2 + value.len();
            assert(s[eq + 1] == '"') by {
                assert(s[at + (name.len() + 1)] == written[name.len() as int + 1]);
            }
            assert forall|k: int| eq + 2 <= k < end implies #[trigger] s[k] == value[k - eq - 2] by {
                assert(s[at + (k - at)] == written[k - at]);
            }
            assert forall|k: int| eq + 2 <= k < end implies #[trigger] s[k] != '"' by {
                assert(value.contains(value[k - eq - 2]));
            }
            assert(s[end] == '"') by {
                assert(s[at + (end - at)] == written[end - at]);
            }
            lemma_char_found(s, '"', eq + 2, end);
            assert(s.subrange(eq + 2, end) =~= value);
        },
        WrittenArgument::Multiline(_, _) => {
            let start = eq + 15;
            let end = start + value.len();
            assert(s[eq + 1] == '$') by {
                assert(s[at + (name.len() + 1)] == written[name.len() as int + 1]);
            }
            assert forall|k: int| 0 <= k < 13 implies s[eq + 1 + k] == token[k] by {
                assert(s[at + (name.len() + 1 + k)] == written[name.len() as int + 1 + k]);
            }
            assert(s.subrange(eq + 1, eq + 14) =~= token);
            let body = s.subrange(start, end + 13);
            assert forall|k: int| 0 <= k < body.len() implies #[trigger] body[k] == (value + token)[k] by {
                assert(s[at + (name.len() + 15 + k)] == written[name.len() as int + 15 + k]);
            }
            assert(body =~= value + token);
            assert(s.subrange(end, end + 13) =~= body.subrange(value.len() as int, value.len() as int + 13));
            assert(s.subrange(end, end + 13) =~= token);
            assert forall|k: int| start <= k < end implies !#[trigger] occurs_at(s, token, k) by {
                if occurs_at(s, token, k) {
                    assert(!occurs_at(value + token, token, k - start));
                    assert(body.subrange(k - start, k - start + 13) =~= s.subrange(k, k + 13));
                }
            }
            lemma_found(s, token, start, end);
            assert(s.subrange(start, end) =~= body.take(value.len() as int));
            assert(s.subrange(start, end) =~= value);
        },
    }
}

proof fn lemma_arguments(
    s: Seq<char>,
    at: int,
    call: ToolCallModel,
    schema: Json,
    arguments: Seq<WrittenArgument>,
    rest: Seq<char>,
)
    requires
        0 <= at <= s.len(),
        s.skip(at) == written_arguments(arguments) + seq![';'] + rest,
        forall|i: int| 0 <= i < arguments.len() ==> (#[trigger] arguments[i]).is_plain(),
        forall|i: int|
            0 <= i < arguments.len() ==> argument_type(schema, (#[trigger] arguments[i]).name()) is Some,
    ensures
        completed_call(s, at, call, schema) == Ok::<_, ToolCallFault>(
            (
                with_arguments(call, schema, arguments),
                at + written_arguments(arguments).len() + 1,
            ),
        ),
    decreases arguments.len(),
{
    let whole = written_arguments(arguments) + seq![';'] + rest;
    assert(s.skip(at).len() == s.len() - at);
    assert(whole.len() == written_arguments(arguments).len() + 1 + rest.len());
    if arguments.len() == 0 {
        assert(s.skip(at)[0] == whole[0]);
        assert(s[at] == ';');
    } else {
        let first = arguments[0];
        let others = arguments.drop_first();
        let longer = with_argument(call, schema, first.name(), first.value())->Ok_0;
        let after = at + first.written().len();
        let tail = if arguments.len() == 1 {
            seq![';'] + rest
        } else {
            seq![' '] + (written_arguments(others) + seq![';'] + rest)
        };
        assert(whole =~= first.written() + tail);
        lemma_first_argument(s, at, call, schema, first, tail);
        assert(s.skip(after) =~= s.skip(at).skip(first.written().len() as int));
        assert(whole.skip(first.written().len() as int) =~= tail);
        assert forall|i: int| 0 <= i < others.len() implies (#[trigger] others[i]).is_plain()
            && argument_type(schema, others[i].name()) is Some by {
            assert(others[i] == arguments[i + 1]);
        }
        if arguments.len() == 1 {
            assert(s.skip(after) =~= written_arguments(others) + seq![';'] + rest);
            lemma_arguments(s, after, longer, schema, others, rest);
        } else {
            assert(s.skip(after)[0] == s[after]);
            assert(s.skip(after + 1) =~= s.skip(after).skip(1));
            assert(tail.skip(1) =~= written_arguments(others) + seq![';'] + rest);
            lemma_arguments(s, after + 1, longer, schema, others, rest);
        }
    }
}

/// A call that is written as the prompt describes is read back with the arguments that were
/// written, whatever stands behind it; what stands behind it is read on its own.
pub proof fn law_written_call_is_read(
    infos: Seq<SessionSubscriberInfoModel>,
    function: Seq<char>,
    arguments: Seq<WrittenArgument>,
    rest: Seq<char>,
)
    requires
        subscriber_tool(infos, function) is Some,
        !function.contains(':'),
        forall|i: int| 0 <= i < arguments.len() ==> (#[trigger] arguments[i]).is_plain(),
        forall|i: int|
            0 <= i < arguments.len() ==> argument_type(
                (subscriber_tool(infos, function)->0).0.input_schema,
                (#[trigger] arguments[i]).name(),
            ) is Some,
    ensures
        ({
            let (tool, name, client) = subscriber_tool(infos, function)->0;
            let call = with_arguments(empty_call(name, client), tool.input_schema, arguments);
            let written = written_call(function, arguments);
            calls_in(infos, written + rest, 0) == match calls_in(infos, written + rest, written.len() as int) {
                TextCallsModel::Calls(others) => TextCallsModel::Calls(seq![call] + others),
                other => other,
            }
        }),
{
    let (tool, name, client) = subscriber_tool(infos, function)->0;
    let written = written_call(function, arguments);
    let s = written + rest;
    let header = TEXT_TOOL_CALL_HEADER@;
    reveal_strlit("$$llmvm_tool$$ ");
    assert(s.subrange(0, 15) =~= header);
    assert(find_from(s, header, 0) == Some(0int));
    assert(s.subrange(0, 0) =~= Seq::<char>::empty());
    assert(byte_len(s.subrange(0, 0)) == 0) by {
        reveal_with_fuel(vstd::utf8::encode_utf8, 2);
    }
    assert(name_start(s, 0, 0) == 15);
    let colon: int = 15 + function.len() as int;
    assert forall|k: int| 15 <= k < colon implies #[trigger] s[k] != ':' by {
        assert(s[k] == function[k - 15]);
        assert(function.contains(function[k - 15]));
    }
    assert(s[colon] == ':');
    lemma_char_found(s, ':', 15, colon);
    assert(s.subrange(15, colon) =~= function);
    assert(s.skip(colon + 1) =~= written_arguments(arguments) + seq![';'] + rest);
    lemma_arguments(s, colon + 1, empty_call(name, client), tool.input_schema, arguments, rest);
    assert(colon + 1 + written_arguments(arguments).len() + 1 == written.len());
}

/// The value that stands for an argument in the usage format of a tool.
pub open spec fn placeholder(name: Seq<char>, property: Json) -> Seq<char> {
    if is_multiline(property) {
        "<"@ + name + " value>\n"@
    } else {
        "value of "@ + name
    }
}

/// An argument as it is written in the usage format of a tool.
pub open spec fn placeholder_argument(name: Seq<char>, property: Json) -> WrittenArgument {
    if is_multiline(property) {
        WrittenArgument::Multiline(name, placeholder(name, property))
    } else {
        WrittenArgument::Quoted(name, placeholder(name, property))
    }
}

/// Whether the name of an argument begins with a letter or digit and holds nothing that ends a name or
/// a value.
pub open spec fn is_argument_name(name: Seq<char>) -> bool {
    &&& name.len() > 0
    &&& is_alnum(name[0])
    &&& !is_white(name[0])
    &&& !name.contains('=')
    &&& !name.contains('"')
    &&& !name.contains('$')
}

proof fn lemma_placeholder_argument(name: Seq<char>, property: Json)
    requires
        is_argument_name(name),
    ensures
        placeholder_argument(name, property).is_plain(),
        placeholder_argument(name, property).name() == name,
        placeholder_argument(name, property).value() == placeholder(name, property),
        placeholder_argument(name, property).written() == argument_usage(name, property),
        i64_in(placeholder(name, property)) is None,
{
    let value = placeholder(name, property);
    let token = MULTILINE_TOKEN@;
    reveal_strlit("$$multiline$$");
    reveal_strlit("<");
    reveal_strlit(" value>\n");
    reveal_strlit("value of ");
    reveal_strlit("=$$multiline$$\n<");
    reveal_strlit(" value>\n$$multiline$$");
    reveal_strlit("=\"value of ");
    reveal_strlit("\"");
    let start: int = if is_multiline(property) {
        1
    } else {
        9
    };
    assert forall|k: int| 0 <= k < value.len() implies #[trigger] value[k] != '"' && value[k] != '$' by {
        if start <= k < start + name.len() {
            assert(value[k] == name[k - start]);
            assert(name.contains(name[k - start]));
        }
    }
    if is_multiline(property) {
        assert forall|k: int| 0 <= k < value.len() implies !#[trigger] occurs_at(value + token, token, k) by {
            if occurs_at(value + token, token, k) {
                assert((value + token).subrange(k, k + token.len())[0] == token[0]);
                assert(value[k] == '$');
            }
        }
        assert(name + seq!['='] + token + seq!['\n'] + value + token =~= name + "=$$multiline$$\n<"@ + name
            + " value>\n$$multiline$$"@);
        assert(value[0] == '<');
    } else {
        assert(name + seq!['=', '"'] + value + seq!['"'] =~= name + "=\"value of "@ + name + "\""@);
        assert(value[0] == 'v');
    }
}

proof fn lemma_arguments_are_joined(arguments: Seq<WrittenArgument>)
    ensures
        written_arguments(arguments) == join(
            arguments.map_values(|argument: WrittenArgument| argument.written()),
            seq![' '],
        ),
    decreases arguments.len(),
{
    let parts = arguments.map_values(|argument: WrittenArgument| argument.written());
    if arguments.len() > 1 {
        let others = arguments.drop_first();
        lemma_arguments_are_joined(others);
        let rest = others.map_values(|argument: WrittenArgument| argument.written());
        assert(parts =~= seq![parts[0]] + rest);
        lemma_join_sum(seq![parts[0]], rest, seq![' ']);
    } else if arguments.len() == 0 {
        assert(written_arguments(arguments) =~= join(parts, seq![' ']));
    }
}

proof fn lemma_with_arguments(call: ToolCallModel, schema: Json, arguments: Seq<WrittenArgument>)
    requires
        call.arguments is Object,
        forall|i: int|
            0 <= i < arguments.len() ==> argument_type(schema, (#[trigger] arguments[i]).name()) is Some,
        forall|i: int, j: int|
            0 <= i < j < arguments.len() ==> (#[trigger] arguments[i]).name() != (
            #[trigger] arguments[j]).name(),
    ensures
        ({
            let after = with_arguments(call, schema, arguments);
            let set = members_of(after.arguments);
            &&& after == ToolCallModel { arguments: after.arguments, ..call }
            &&& after.arguments is Object
            &&& forall|i: int|
                0 <= i < arguments.len() ==> set.contains_key((#[trigger] arguments[i]).name())
                    && set[arguments[i].name()] == argument_value(
                    argument_type(schema, arguments[i].name())->0,
                    arguments[i].value(),
                )
            &&& forall|k: Seq<char>|
                (forall|i: int| 0 <= i < arguments.len() ==> (#[trigger] arguments[i]).name() != k) ==> (
                #[trigger] set.contains_key(k)) == members_of(call.arguments).contains_key(k)
                    && set[k] == members_of(call.arguments)[k]
        }),
    decreases arguments.len(),
{
    if arguments.len() > 0 {
        let first = arguments[0];
        let others = arguments.drop_first();
        let longer = with_argument(call, schema, first.name(), first.value())->Ok_0;
        assert(argument_type(schema, arguments[0].name()) is Some);
        assert forall|i: int| 0 <= i < others.len() implies argument_type(
            schema,
            (#[trigger] others[i]).name(),
        ) is Some by {
            assert(others[i] == arguments[i + 1]);
        }
        assert forall|i: int, j: int| 0 <= i < j < others.len() implies (#[trigger] others[i]).name() != (
        #[trigger] others[j]).name() by {
            assert(arguments[i + 1].name() != arguments[j + 1].name());
        }
        lemma_with_arguments(longer, schema, others);
        let after = with_arguments(call, schema, arguments);
        let set = members_of(after.arguments);
        assert(after == with_arguments(longer, schema, others));
        assert forall|i: int| 0 <= i < others.len() implies (#[trigger] others[i]).name() != first.name() by {
            assert(arguments[0].name() != arguments[i + 1].name());
        }
        assert(members_of(longer.arguments).contains_key(first.name()));
        assert forall|i: int| 0 <= i < arguments.len() implies set.contains_key(
            (#[trigger] arguments[i]).name(),
        ) && set[arguments[i].name()] == argument_value(
            argument_type(schema, arguments[i].name())->0,
            arguments[i].value(),
        ) by {
            if i > 0 {
                assert(arguments[i] == others[i - 1]);
            } else {
                assert(set.contains_key(first.name()) == members_of(longer.arguments).contains_key(
                    first.name(),
                ));
            }
        }
        assert forall|k: Seq<char>|
            (forall|i: int| 0 <= i < arguments.len() ==> (#[trigger] arguments[i]).name() != k) implies (
        #[trigger] set.contains_key(k)) == members_of(call.arguments).contains_key(k) && set[k]
            == members_of(call.arguments)[k] by {
            assert(arguments[0].name() != k);
            assert forall|i: int| 0 <= i < others.len() implies (#[trigger] others[i]).name() != k by {
                assert(others[i] == arguments[i + 1]);
            }
            assert(set.contains_key(k) == members_of(longer.arguments).contains_key(k));
        }
    }
}

/// The usage format that a prompt gives for a tool is itself read as one call of that tool, with exactly
/// the properties of the tool as arguments, each with the text that stands for its value.
pub proof fn law_usage_format_is_read_as_a_call(infos: Seq<SessionSubscriberInfoModel>, tool: ToolModel)
    requires
        subscriber_tool(infos, tool.name) is Some,
        (subscriber_tool(infos, tool.name)->0).0 == tool,
        !tool.name.contains(':'),
        properties_of(tool.input_schema) is Some,
        properties_of(tool.input_schema)->0.dom().finite(),
        forall|k: Seq<char>| #[trigger]
            properties_of(tool.input_schema)->0.contains_key(k) ==> is_argument_name(k) && argument_type(
                tool.input_schema,
                k,
            ) is Some,
    ensures
        ({
            let properties = properties_of(tool.input_schema)->0;
            let format = text_tool_parameters(tool)->0.usage_format;
            let (_, name, client) = subscriber_tool(infos, tool.name)->0;
            calls_in(infos, format, 0) == TextCallsModel::Calls(
                seq![
                    ToolCallModel {
                        id: None,
                        name,
                        client_id: Some(client),
                        arguments: Json::Object(
                            Map::new(
                                |k: Seq<char>| properties.contains_key(k),
                                |k: Seq<char>| Json::Text(placeholder(k, properties[k])),
                            ),
                        ),
                    },
                ],
            )
        }),
{
    let schema = tool.input_schema;
    let properties = properties_of(schema)->0;
    lemma_names_exist(properties);
    let keys = names(properties);
    let arguments = keys.map_values(|name: Seq<char>| placeholder_argument(name, properties[name]));
    assert forall|i: int| 0 <= i < arguments.len() implies (#[trigger] arguments[i]).is_plain()
        && arguments[i].name() == keys[i] && argument_type(schema, arguments[i].name()) is Some by {
        assert(properties.contains_key(keys[i]));
        lemma_placeholder_argument(keys[i], properties[keys[i]]);
    }
    let (_, name, client) = subscriber_tool(infos, tool.name)->0;
    let format = text_tool_parameters(tool)->0.usage_format;
    let written = written_call(tool.name, arguments);
    let usages = keys.map_values(|name: Seq<char>| argument_usage(name, properties[name]));
    let parts = arguments.map_values(|argument: WrittenArgument| argument.written());
    assert forall|i: int| 0 <= i < keys.len() implies parts[i] == usages[i] by {
        assert(properties.contains_key(keys[i]));
        lemma_placeholder_argument(keys[i], properties[keys[i]]);
        assert(arguments[i].written() == argument_usage(keys[i], properties[keys[i]]));
    }
    assert(parts =~= usages);
    lemma_arguments_are_joined(arguments);
    reveal_strlit(" ");
    reveal_strlit(":");
    reveal_strlit(";\n\n");
    assert(" "@ =~= seq![' ']);
    let tail = seq!['\n', '\n'];
    assert(format =~= written + tail);
    law_written_call_is_read(infos, tool.name, arguments, tail);
    reveal_strlit("$$llmvm_tool$$ ");
    assert(find_from(format, TEXT_TOOL_CALL_HEADER@, written.len() as int) is None);
    let call = with_arguments(empty_call(name, client), schema, arguments);
    assert(seq![call] + Seq::<ToolCallModel>::empty() =~= seq![call]);
    assert forall|i: int, j: int| 0 <= i < j < arguments.len() implies (#[trigger] arguments[i]).name() != (
    #[trigger] arguments[j]).name() by {
        assert(before(keys[i], keys[j]));
        lemma_before_irreflexive(keys[i]);
    }
    lemma_with_arguments(empty_call(name, client), schema, arguments);
    let set = members_of(call.arguments);
    let wanted = Map::new(
        |k: Seq<char>| properties.contains_key(k),
        |k: Seq<char>| Json::Text(placeholder(k, properties[k])),
    );
    assert forall|k: Seq<char>| #[trigger] set.contains_key(k) == wanted.contains_key(k) && (
    wanted.contains_key(k) ==> set[k] == wanted[k]) by {
        if properties.contains_key(k) {
            assert(keys.contains(k));
            let i = choose|i: int| 0 <= i < keys.len() && keys[i] == k;
            lemma_placeholder_argument(k, properties[k]);
            assert(arguments[i].name() == k);
            assert(arguments[i].value() == placeholder(k, properties[k]));
        } else {
            assert forall|i: int| 0 <= i < arguments.len() implies (#[trigger] arguments[i]).name() != k by {
                assert(properties.contains_key(keys[i]));
            }
            assert(set.contains_key(k) == no_members().contains_key(k));
        }
    }
    assert(set =~= wanted);
}

/// An argument that is set stands among the arguments of the call, as an integer where the schema wants
/// one and the text is one, and as the text that it is else. Nothing else of the call changes. Where the
/// schema does not give its type, the argument is refused.
pub proof fn law_argument_is_set(
    call: ToolCallModel,
    schema: Json,
    name: Seq<char>,
    text: Seq<char>,
    n: nat,
    other: Seq<char>,
)
    requires
        call.arguments is Object,
        n <= i64::MAX,
        other != name,
    ensures
        argument_type(schema, name) is None ==> with_argument(call, schema, name, text) is Err,
        argument_type(schema, name) matches Some(kind) ==> {
            &&& with_argument(call, schema, name, text) matches Ok(after)
            &&& after.id == call.id && after.name == call.name && after.client_id == call.client_id
            &&& kind != "integer"@ ==> after.arguments.member(name) == Some(Json::Text(text))
            &&& kind == "integer"@ && text == decimal(n) ==> after.arguments.member(name) == Some(
                Json::Int(n as int),
            )
            &&& kind == "integer"@ && i64_in(text) is None ==> after.arguments.member(name) == Some(
                Json::Text(text),
            )
            &&& after.arguments.member(other) == call.arguments.member(other)
        },
{
    law_decimal_is_read_back(n);
    lemma_decimal(n);
    assert(decimal(n).len() > 0 && decimal(n)[0] != '-' && decimal(n)[0] != '+') by {
        assert(is_digits(decimal(n)));
    }
}

/// A schema gives the type of an argument under the properties, the name of the argument and `type`.
pub proof fn law_schema_gives_types(schema: Json, properties: Json, property: Json, name: Seq<char>, kind: Seq<char>)
    requires
        schema.member("properties"@) == Some(properties),
        properties.member(name) == Some(property),
    ensures
        property.member("type"@) == Some(Json::Text(kind)) ==> argument_type(schema, name) == Some(kind),
        property.member("type"@) is None ==> argument_type(schema, name) is None,
{
}

/// Every tool of a subscriber that has the type is offered, as it is, behind those before it, and no
/// tool of another type is.
pub proof fn law_tools_are_offered(
    infos: Seq<SessionSubscriberInfoModel>,
    info: SessionSubscriberInfoModel,
    tools: Seq<ToolModel>,
    tool: ToolModel,
    tool_type: ToolType,
)
    ensures
        offered_tools(Seq::empty(), tool_type).len() == 0,
        info.tools is None ==> offered_tools(infos.push(info), tool_type) == offered_tools(
            infos,
            tool_type,
        ),
        info.tools == Some(Seq::<ToolModel>::empty()) ==> offered_tools(infos.push(info), tool_type)
            == offered_tools(infos, tool_type),
        ({
            let before = infos.push(SessionSubscriberInfoModel { tools: Some(tools), ..info });
            let after = infos.push(
                SessionSubscriberInfoModel { tools: Some(tools.push(tool)), ..info },
            );
            &&& tool.tool_type == tool_type ==> offered_tools(after, tool_type) == offered_tools(
                before,
                tool_type,
            ).push(tool)
            &&& tool.tool_type != tool_type ==> offered_tools(after, tool_type) == offered_tools(
                before,
                tool_type,
            )
        }),
{
    reveal(Seq::filter);
    let before = infos.push(SessionSubscriberInfoModel { tools: Some(tools), ..info });
    let after = infos.push(SessionSubscriberInfoModel { tools: Some(tools.push(tool)), ..info });
    assert(before.drop_last() =~= infos);
    assert(after.drop_last() =~= infos);
    assert(infos.push(info).drop_last() =~= infos);
    assert(tools.push(tool).drop_last() =~= tools);
    assert(offered_tools(after, tool_type) =~= offered_tools(infos, tool_type) + of_type(
        tools.push(tool),
        tool_type,
    ));
    if tool.tool_type == tool_type {
        assert(offered_tools(after, tool_type) =~= offered_tools(before, tool_type).push(tool));
    }
    assert(offered_tools(infos, tool_type) + Seq::<ToolModel>::empty() =~= offered_tools(infos, tool_type));
}

/// The name under which a tool is offered is its own, an underscore and the id of its client. All else
/// of the tools, and of the subscribers, stays, and so does their order.
pub proof fn law_only_names_of_tools_change(infos: Seq<SessionSubscriberInfoModel>, i: int, j: int)
    requires
        0 <= i < infos.len(),
    ensures
        ({
            let offering = all_with_offered_names(infos);
            &&& offering.len() == infos.len()
            &&& offering[i].client_id == infos[i].client_id
            &&& offering[i].prompt_parameters == infos[i].prompt_parameters
            &&& offering[i].tool_call_results == infos[i].tool_call_results
            &&& infos[i].tools is None ==> offering[i].tools is None
            &&& infos[i].tools matches Some(tools) ==> {
                &&& offering[i].tools matches Some(named)
                &&& named.len() == tools.len()
                &&& 0 <= j < tools.len() ==> {
                    &&& named[j].name == tools[j].name + seq!['_'] + infos[i].client_id
                    &&& named[j].description == tools[j].description
                    &&& named[j].input_schema == tools[j].input_schema
                    &&& named[j].tool_type == tools[j].tool_type
                }
            }
        }),
{
    reveal_strlit("_");
    assert("_"@ =~= seq!['_']);
}

/// A call that a backend reports under the name that a tool was offered under goes to the client of the
/// tool, under the tool's own name, with the id and the arguments that were reported.
pub proof fn law_reported_call_goes_to_its_client(
    infos: Seq<SessionSubscriberInfoModel>,
    call: BackendToolCallModel,
    tool: ToolModel,
    name: Seq<char>,
    client: Seq<char>,
)
    requires
        subscriber_tool(infos, call.name) == Some((tool, name, client)),
    ensures
        client_call(Some(infos), call) matches Some(found) && found.id == Some(call.id) && found.name == name
            && found.client_id == Some(client) && found.arguments == call.arguments,
        client_call(None, call) is None,
{
}

/// The calls that a backend reports are handed on all and in order, or not at all.
pub proof fn law_reported_calls_are_handed_on(
    reported: Vec<BackendToolCall>,
    infos: Vec<SessionSubscriberInfo>,
    r: Result<Vec<ToolCall>, CoreError>,
)
    requires
        call_ensures(backend_tool_calls_to_tool_calls, (reported, Some(&infos)), r),
    ensures
        r is Ok <==> forall|i: int|
            0 <= i < reported@.len() ==> subscriber_tool(
                infos.deep_view(),
                (#[trigger] reported@[i]).name@,
            ) is Some,
        r matches Ok(calls) ==> calls@.len() == reported@.len() && forall|i: int|
            #![trigger calls@[i]]
            0 <= i < calls@.len() ==> {
                let found = subscriber_tool(infos.deep_view(), reported@[i].name@)->0;
                &&& calls@[i].deep_view().id == Some(reported@[i].id@)
                &&& calls@[i].name@ == found.1
                &&& calls@[i].deep_view().client_id == Some(found.2)
                &&& json(calls@[i].arguments) == json(reported@[i].arguments)
            },
{
    let all = reported.deep_view();
    let known = Some(infos.deep_view());
    assert forall|i: int| 0 <= i < reported@.len() implies (client_call(known, #[trigger] all[i]) is Some)
        == (subscriber_tool(infos.deep_view(), reported@[i].name@) is Some) by {
        assert(all[i] == reported@[i].deep_view());
    }
    if r is Ok {
        assert forall|i: int| 0 <= i < reported@.len() implies subscriber_tool(
            infos.deep_view(),
            (#[trigger] reported@[i]).name@,
        ) is Some by {
            assert(client_call(known, all[i]) is Some);
        }
        let calls = r->Ok_0;
        assert(calls.deep_view().len() == calls@.len());
        assert forall|i: int| #![trigger calls@[i]] 0 <= i < calls@.len() implies calls@[i].deep_view()
            == client_call(known, all[i])->0 by {
            assert(calls.deep_view()[i] == client_calls(known, all)[i]);
        }
    }
}

/// What a prompt says of a tool holds its name and its description, and for each property that is an
/// object a line with the name and the description of the property, in the order of the names.
pub proof fn law_tool_is_described(
    tool: ToolModel,
    properties: Map<Seq<char>, Json>,
    names: Seq<Seq<char>>,
    name: Seq<char>,
    description: Seq<char>,
)
    requires
        properties_of(tool.input_schema) == Some(properties),
        properties.contains_key(name),
    ensures
        text_tool_parameters(tool) matches Some(said) && said.name == tool.name && said.description
            == tool.description,
        argument_lines(properties, Seq::empty()).len() == 0,
        properties[name].member("description"@) == Some(Json::Text(description)) ==> argument_lines(
            properties,
            names.push(name),
        ) == argument_lines(properties, names).push(name + ": "@ + description + "\n"@),
        !(properties[name] is Object) ==> argument_lines(properties, names.push(name)) == argument_lines(
            properties,
            names,
        ),
{
    assert(names.push(name).drop_last() =~= names);
}

/// What a prompt says of tools follows their order: a tool whose schema describes properties goes behind
/// those before it, and any other is left out.
pub proof fn law_described_tools_are_in_order(tools: Seq<ToolModel>, tool: ToolModel)
    ensures
        all_text_tool_parameters(Seq::empty()).len() == 0,
        properties_of(tool.input_schema) is Some ==> all_text_tool_parameters(tools.push(tool))
            == all_text_tool_parameters(tools).push(text_tool_parameters(tool)->0),
        properties_of(tool.input_schema) is None ==> all_text_tool_parameters(tools.push(tool))
            == all_text_tool_parameters(tools),
{
    assert(tools.push(tool).drop_last() =~= tools);
}

/// A helper waits for each call once, and for all of them.
pub proof fn law_helper_waits_for_each_call_once(ids: Seq<Seq<char>>)
    ensures
        forall|i: int, j: int|
            0 <= i < j < distinct(ids).len() ==> #[trigger] distinct(ids)[i] != #[trigger] distinct(ids)[j],
        forall|id: Seq<char>| ids.contains(id) <==> #[trigger] distinct(ids).contains(id),
    decreases ids.len(),
{
    if ids.len() > 0 {
        let before = distinct(ids.drop_last());
        law_helper_waits_for_each_call_once(ids.drop_last());
        assert forall|id: Seq<char>| ids.contains(id) <==> #[trigger] distinct(ids).contains(id) by {
            if ids.contains(id) {
                let k = choose|k: int| 0 <= k < ids.len() && ids[k] == id;
                if k < ids.len() - 1 {
                    assert(ids.drop_last()[k] == id);
                    assert(ids.drop_last().contains(id));
                    assert(before.contains(id));
                    let i = choose|i: int| 0 <= i < before.len() && before[i] == id;
                    assert(distinct(ids)[i] == id);
                } else if before.contains(id) {
                } else {
                    assert(distinct(ids).last() == id);
                }
            }
            if distinct(ids).contains(id) {
                let i = choose|i: int| 0 <= i < distinct(ids).len() && distinct(ids)[i] == id;
                if i < before.len() {
                    assert(before[i] == id);
                    assert(before.contains(id));
                    assert(ids.drop_last().contains(id));
                    let k = choose|k: int| 0 <= k < ids.drop_last().len() && ids.drop_last()[k] == id;
                    assert(ids[k] == id);
                } else {
                    assert(ids[ids.len() - 1] == id);
                }
            }
        }
        assert forall|i: int, j: int| 0 <= i < j < distinct(ids).len() implies #[trigger] distinct(ids)[i]
            != #[trigger] distinct(ids)[j] by {
            if j < before.len() {
                assert(before[i] != before[j]);
            } else {
                assert(before.contains(before[i]));
            }
        }
    }
}

/// A result that comes in is kept with its call, the last of several; calls without a new result stay as
/// they are, and so does the order of the calls. Where each call gets a result, all are finished.
pub proof fn law_results_are_kept_with_their_calls(
    calls: Seq<PendingCallModel>,
    results: Seq<ToolCallResultModel>,
    result: ToolCallResultModel,
    i: int,
)
    requires
        0 <= i < calls.len(),
    ensures
        ({
            let after = with_results(calls, results.push(result));
            &&& after.len() == calls.len()
            &&& after[i].id == calls[i].id
            &&& calls[i].id == result.id ==> after[i].result == Some(result)
            &&& calls[i].id != result.id ==> after[i] == with_results(calls, results)[i]
            &&& with_results(calls, Seq::empty()) == calls
            &&& is_finished(after) ==> after[i].result is Some
            &&& calls.len() == 1 && calls[i].id == result.id ==> is_finished(after)
            &&& calls[i].id != result.id && calls[i].result is None && last_result(results, calls[i].id) is None
                ==> !is_finished(after)
        }),
{
    assert(results.push(result).drop_last() =~= results);
    assert(with_results(calls, Seq::empty()) =~= calls);
    let after = with_results(calls, results.push(result));
    if calls.len() == 1 && calls[i].id == result.id {
        assert forall|k: int| 0 <= k < after.len() implies (#[trigger] after[k]).result is Some by {}
    }
    if calls[i].id != result.id && calls[i].result is None && last_result(results, calls[i].id) is None {
        assert(after[i].result is None);
    }
}

/// The message that a finished helper makes holds the results in the order of the calls, and is one of
/// the user.
pub proof fn law_results_make_a_message(helper: ToolCallHelper, r: Message)
    requires
        is_finished(helper.calls()),
        call_ensures(ToolCallHelper::into_message, (helper,), r),
    ensures
        r.role == MessageRole::User,
        r.content is None,
        r.client_id.deep_view() == helper.client_id.deep_view(),
        r.tool_call_results.deep_view() matches Some(results) && results.len() == helper.calls().len()
            && forall|i: int|
            0 <= i < results.len() ==> Some(#[trigger] results[i]) == helper.calls()[i].result,
{
    let said = r.deep_view();
    assert(said.content == r.content.deep_view());
    assert(said.client_id == r.client_id.deep_view());
    assert(said.tool_call_results == r.tool_call_results.deep_view());
    let results = r.tool_call_results.deep_view()->0;
    assert forall|i: int| 0 <= i < results.len() implies Some(#[trigger] results[i])
        == helper.calls()[i].result by {
        assert(helper.calls()[i].result is Some);
    }
}

/// The properties of a schema are the members of its part of that name, where that is an object.
pub proof fn law_properties_stand_under_their_name(
    schema: Map<Seq<char>, Json>,
    properties: Map<Seq<char>, Json>,
)
    ensures
        properties_of(Json::Object(schema.insert("properties"@, Json::Object(properties)))) == Some(
            properties,
        ),
        properties_of(Json::Object(schema.insert("properties"@, Json::Null))) is None,
        properties_of(Json::Object(schema.remove("properties"@))) is None,
{
}

} // verus!
