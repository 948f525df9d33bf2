use vstd::prelude::*;
use crate::json::{
    Json, JsonValue, first_member, json_entries, json_items, lemma_first_member_at,
    lemma_first_member_bounds, lemma_json_entries, lemma_json_items_push, lookup, member_int,
    member_text, members_insert, object_insert,
};
use crate::models::ToolStatus;
use crate::text::{owned, push_signed_decimal, push_str, signed_decimal, str_eq};

verus! {

/// A parameter of a tool: name, JSON type, description, and whether it is required.
pub type ParamView = (Seq<char>, Seq<char>, Seq<char>, bool);

/// The parameters by their texts.
pub open spec fn param_views(params: Seq<(&str, &str, &str, bool)>) -> Seq<ParamView> {
    params.map_values(|p: (&str, &str, &str, bool)| (p.0@, p.1@, p.2@, p.3))
}

/// The JSON description of one parameter.
pub open spec fn param_json(p: ParamView) -> Json {
    Json::Object(seq![("type"@, Json::String(p.1)), ("description"@, Json::String(p.2))])
}

/// The `properties` member: each parameter by name, a later one of the same
/// name replacing the earlier.
pub open spec fn schema_properties(params: Seq<ParamView>) -> Seq<(Seq<char>, Json)>
    decreases params.len(),
{
    if params.len() == 0 {
        Seq::empty()
    } else {
        let p = params.last();
        members_insert(schema_properties(params.drop_last()), p.0, param_json(p))
    }
}

/// The `required` member: the names of the required parameters, in order.
pub open spec fn schema_required(params: Seq<ParamView>) -> Seq<Json>
    decreases params.len(),
{
    if params.len() == 0 {
        Seq::empty()
    } else {
        let p = params.last();
        let rest = schema_required(params.drop_last());
        if p.3 {
            rest.push(Json::String(p.0))
        } else {
            rest
        }
    }
}

/// The function-calling schema of a tool.
pub open spec fn schema_json(name: Seq<char>, description: Seq<char>, params: Seq<ParamView>) -> Json {
    Json::Object(
        seq![
            ("type"@, Json::String("function"@)),
            (
                "function"@,
                Json::Object(
                    seq![
                        ("name"@, Json::String(name)),
                        ("description"@, Json::String(description)),
                        (
                            "parameters"@,
                            Json::Object(
                                seq![
                                    ("type"@, Json::String("object"@)),
                                    ("properties"@, Json::Object(schema_properties(params))),
                                    ("required"@, Json::Array(schema_required(params))),
                                ],
                            ),
                        ),
                    ],
                ),
            ),
        ],
    )
}

/// Two members in order.
fn pair_object(k1: &str, v1: JsonValue, k2: &str, v2: JsonValue) -> (r: JsonValue)
    ensures
        r@ == Json::Object(seq![(k1@, v1@), (k2@, v2@)]),
{
    let mut m: Vec<(String, JsonValue)> = Vec::new();
    m.push((owned(k1), v1));
    m.push((owned(k2), v2));
    proof {
        lemma_json_entries(m@);
        assert(json_entries(m@) =~= seq![(k1@, v1@), (k2@, v2@)]);
    }
    JsonValue::Object(m)
}

/// Three members in order.
fn triple_object(k1: &str, v1: JsonValue, k2: &str, v2: JsonValue, k3: &str, v3: JsonValue) -> (r:
    JsonValue)
    ensures
        r@ == Json::Object(seq![(k1@, v1@), (k2@, v2@), (k3@, v3@)]),
{
    let mut m: Vec<(String, JsonValue)> = Vec::new();
    m.push((owned(k1), v1));
    m.push((owned(k2), v2));
    m.push((owned(k3), v3));
    proof {
        lemma_json_entries(m@);
        assert(json_entries(m@) =~= seq![(k1@, v1@), (k2@, v2@), (k3@, v3@)]);
    }
    JsonValue::Object(m)
}

/// The function-calling schema of a tool named `name`, whose parameters are
/// given as (name, JSON type, description, required).
pub fn make_schema(name: &str, description: &str, params: &[(&str, &str, &str, bool)]) -> (r:
    JsonValue)
    ensures
        r@ == schema_json(name@, description@, param_views(params@)),
{
    let ghost views = param_views(params@);
    let mut properties: Vec<(String, JsonValue)> = Vec::new();
    let mut required: Vec<JsonValue> = Vec::new();
    let mut i: usize = 0;
    while i < params.len()
        invariant
            i <= params.len(),
            views == param_views(params@),
            json_entries(properties@) == schema_properties(views.take(i as int)),
            json_items(required@) == schema_required(views.take(i as int)),
        decreases params.len() - i,
    {
        let (p_name, p_type, p_desc, req) = params[i];
        let prop = pair_object("type", JsonValue::text(p_type), "description", JsonValue::text(p_desc));
        proof {
            assert(views.take(i + 1).drop_last() =~= views.take(i as int));
            assert(views.take(i + 1).last() == views[i as int]);
        }
        object_insert(&mut properties, owned(p_name), prop);
        if req {
            let ghost before = required@;
            let s = JsonValue::text(p_name);
            proof {
                lemma_json_items_push(before, s);
            }
            required.push(s);
        }
        i = i + 1;
    }
    proof {
        assert(views.take(params.len() as int) =~= views);
    }
    let parameters = triple_object(
        "type",
        JsonValue::text("object"),
        "properties",
        JsonValue::Object(properties),
        "required",
        JsonValue::Array(required),
    );
    let function = triple_object(
        "name",
        JsonValue::text(name),
        "description",
        JsonValue::text(description),
        "parameters",
        parameters,
    );
    pair_object("type", JsonValue::text("function"), "function", function)
}

/// A call of a tool that the model asks for: the tool's name and its arguments.
#[derive(Debug)]
pub struct ToolCall {
    pub name: String,
    pub arguments: JsonValue,
}

impl ToolCall {
    /// The call as a JSON object, as it is sent back to the model.
    pub open spec fn json(&self) -> Json {
        Json::Object(seq![("name"@, Json::String(self.name@)), ("arguments"@, self.arguments@)])
    }

    /// The call as a JSON object: its `name` and its `arguments`.
    pub fn to_json(&self) -> (r: JsonValue)
        ensures
            r@ == self.json(),
    {
        pair_object("name", JsonValue::String(self.name.clone()), "arguments", self.arguments.deep_copy())
    }

    /// An independent copy of the call.
    pub fn deep_copy(&self) -> (r: ToolCall)
        ensures
            r.name@ == self.name@,
            r.arguments@ == self.arguments@,
    {
        ToolCall { name: self.name.clone(), arguments: self.arguments.deep_copy() }
    }
}

/// Which action a tool performs.
#[derive(Clone, Copy, Debug, PartialEq, Eq, Structural)]
pub enum ToolKind {
    ReadFile,
    WriteFile,
    ListDirectory,
    SearchFiles,
    Shell,
    GetEnv,
    ComputerScreenshot,
    ComputerClick,
    ComputerType,
}

/// A tool that the model may call.
#[derive(Debug)]
pub struct Tool {
    pub name: String,
    pub display_name: String,
    pub description: String,
    pub enabled: bool,
    pub available: bool,
    pub schema: JsonValue,
    pub kind: ToolKind,
}

/// A tool by its values.
pub struct ToolView {
    pub name: Seq<char>,
    pub display_name: Seq<char>,
    pub description: Seq<char>,
    pub enabled: bool,
    pub available: bool,
    pub schema: Json,
    pub kind: ToolKind,
}

impl View for Tool {
    type V = ToolView;

    open spec fn view(&self) -> ToolView {
        ToolView {
            name: self.name@,
            display_name: self.display_name@,
            description: self.description@,
            enabled: self.enabled,
            available: self.available,
            schema: self.schema@,
            kind: self.kind,
        }
    }
}

/// The tools by their values.
pub open spec fn tool_views(tools: Seq<Tool>) -> Seq<ToolView> {
    tools.map_values(|t: Tool| t@)
}

/// The tool view with the given values.
pub open spec fn tool_view(
    name: Seq<char>,
    display_name: Seq<char>,
    description: Seq<char>,
    enabled: bool,
    available: bool,
    schema: Json,
    kind: ToolKind,
) -> ToolView {
    ToolView { name, display_name, description, enabled, available, schema, kind }
}

/// The tools that a new registry holds, in order.  The computer-use tools are
/// available on Windows only; they and `get_env` start disabled.
pub open spec fn default_tools(on_windows: bool) -> Seq<ToolView> {
    seq![
        tool_view(
            "read_file"@,
            "Read File"@,
            "Read the contents of a file"@,
            true,
            true,
            schema_json("read_file"@, "Read file contents"@, seq![("path"@, "string"@, "File path"@, true)]),
            ToolKind::ReadFile,
        ),
        tool_view(
            "write_file"@,
            "Write File"@,
            "Write content to a file"@,
            true,
            true,
            schema_json(
                "write_file"@,
                "Write file contents"@,
                seq![("path"@, "string"@, "File path"@, true), ("content"@, "string"@, "Content"@, true)],
            ),
            ToolKind::WriteFile,
        ),
        tool_view(
            "list_directory"@,
            "List Directory"@,
            "List files in a directory"@,
            true,
            true,
            schema_json(
                "list_directory"@,
                "List directory"@,
                seq![("path"@, "string"@, "Directory path"@, false)],
            ),
            ToolKind::ListDirectory,
        ),
        tool_view(
            "search_files"@,
            "Search Files"@,
            "Search for text in files"@,
            true,
            true,
            schema_json(
                "search_files"@,
                "Search files"@,
                seq![("query"@, "string"@, "Search text"@, true), ("path"@, "string"@, "Directory"@, false)],
            ),
            ToolKind::SearchFiles,
        ),
        tool_view(
            "shell_command"@,
            "Shell Command"@,
            "Run a shell command"@,
            true,
            true,
            schema_json("shell_command"@, "Shell command"@, seq![("command"@, "string"@, "Command"@, true)]),
            ToolKind::Shell,
        ),
        tool_view(
            "get_env"@,
            "Get Env Var"@,
            "Get environment variable"@,
            false,
            true,
            schema_json("get_env"@, "Get env var"@, seq![("name"@, "string"@, "Variable name"@, true)]),
            ToolKind::GetEnv,
        ),
        tool_view(
            "computer_screenshot"@,
            "Screenshot"@,
            "Take a screenshot"@,
            false,
            on_windows,
            schema_json("computer_screenshot"@, "Screenshot"@, seq![]),
            ToolKind::ComputerScreenshot,
        ),
        tool_view(
            "computer_click"@,
            "Mouse Click"@,
            "Click at screen coordinates"@,
            false,
            on_windows,
            schema_json(
                "computer_click"@,
                "Click at position"@,
                seq![
                    ("x"@, "integer"@, "X coord"@, true),
                    ("y"@, "integer"@, "Y coord"@, true),
                    ("button"@, "string"@, "Button"@, false),
                ],
            ),
            ToolKind::ComputerClick,
        ),
        tool_view(
            "computer_type"@,
            "Type Text"@,
            "Type text at cursor position"@,
            false,
            on_windows,
            schema_json("computer_type"@, "Type text"@, seq![("text"@, "string"@, "Text to type"@, true)]),
            ToolKind::ComputerType,
        ),
    ]
}

/// A tool with its schema.
fn make_tool(
    name: &str,
    display_name: &str,
    description: &str,
    enabled: bool,
    available: bool,
    schema_description: &str,
    params: &[(&str, &str, &str, bool)],
    kind: ToolKind,
) -> (t: Tool)
    ensures
        t@ == tool_view(
            name@,
            display_name@,
            description@,
            enabled,
            available,
            schema_json(name@, schema_description@, param_views(params@)),
            kind,
        ),
{
    Tool {
        name: owned(name),
        display_name: owned(display_name),
        description: owned(description),
        enabled,
        available,
        schema: make_schema(name, schema_description, params),
        kind,
    }
}

/// The position of the first tool named `name`.
pub open spec fn first_tool(tools: Seq<ToolView>, name: Seq<char>) -> Option<int> {
    if exists|i: int| 0 <= i < tools.len() && tools[i].name == name {
        Some(
            choose|i: int|
                0 <= i < tools.len() && tools[i].name == name && forall|j: int|
                    0 <= j < i ==> tools[j].name != name,
        )
    } else {
        None
    }
}

pub proof fn lemma_first_tool_at(tools: Seq<ToolView>, name: Seq<char>, i: int)
    requires
        0 <= i < tools.len(),
        tools[i].name == name,
        forall|j: int| 0 <= j < i ==> tools[j].name != name,
    ensures
        first_tool(tools, name) == Some(i),
{
    let k = choose|k: int|
        0 <= k < tools.len() && tools[k].name == name && forall|j: int| 0 <= j < k ==> tools[j].name != name;
    if k < i {
        assert(tools[k].name != name);
    } else if k > i {
        assert(tools[i].name != name);
    }
}

pub proof fn lemma_tool_views_update(tools: Seq<Tool>, i: int, t: Tool)
    requires
        0 <= i < tools.len(),
    ensures
        tool_views(tools.update(i, t)) == tool_views(tools).update(i, t@),
{
    assert(tool_views(tools.update(i, t)) =~= tool_views(tools).update(i, t@));
}

/// The tools after turning the one named `name` on or off.
pub open spec fn with_enabled(tools: Seq<ToolView>, name: Seq<char>, enabled: bool) -> Seq<ToolView> {
    match first_tool(tools, name) {
        Some(i) => tools.update(i, ToolView { enabled, ..tools[i] }),
        None => tools,
    }
}

/// The first tool named `name`, when there is one, is named so and none before it is.
pub proof fn lemma_first_tool_bounds(tools: Seq<ToolView>, name: Seq<char>)
    ensures
        match first_tool(tools, name) {
            Some(i) => 0 <= i < tools.len() && tools[i].name == name && forall|j: int|
                0 <= j < i ==> tools[j].name != name,
            None => forall|j: int| 0 <= j < tools.len() ==> tools[j].name != name,
        },
{
    if exists|i: int| 0 <= i < tools.len() && tools[i].name == name {
        let w = choose|i: int| 0 <= i < tools.len() && tools[i].name == name;
        lemma_least_tool(tools, name, w);
    }
}

proof fn lemma_least_tool(tools: Seq<ToolView>, name: Seq<char>, w: int)
    requires
        0 <= w < tools.len(),
        tools[w].name == name,
    ensures
        exists|i: int|
            0 <= i < tools.len() && tools[i].name == name && forall|j: int|
                0 <= j < i ==> tools[j].name != name,
    decreases w,
{
    if exists|j: int| 0 <= j < w && tools[j].name == name {
        let j = choose|j: int| 0 <= j < w && tools[j].name == name;
        lemma_least_tool(tools, name, j);
    } else {
        assert(forall|j: int| 0 <= j < w ==> tools[j].name != name);
    }
}

/// Turning a tool on or off keeps every tool's name, so every name finds
/// the same tool as before.
pub proof fn lemma_with_enabled_keeps_names(tools: Seq<ToolView>, name: Seq<char>, enabled: bool, other: Seq<char>)
    ensures
        with_enabled(tools, name, enabled).len() == tools.len(),
        forall|j: int| 0 <= j < tools.len() ==> #[trigger] with_enabled(tools, name, enabled)[j].name == tools[j].name,
        first_tool(with_enabled(tools, name, enabled), other) == first_tool(tools, other),
{
    lemma_first_tool_bounds(tools, name);
    lemma_first_tool_bounds(tools, other);
    let after = with_enabled(tools, name, enabled);
    assert forall|j: int| 0 <= j < tools.len() implies #[trigger] after[j].name == tools[j].name by {}
    match first_tool(tools, other) {
        Some(k) => {
            lemma_first_tool_at(after, other, k);
        },
        None => {
            lemma_first_tool_bounds(after, other);
            match first_tool(after, other) {
                Some(k) => {
                    assert(tools[k].name == other);
                },
                None => {},
            }
        },
    }
}

/// A tool that has been turned off answers every call with a refusal, and
/// one that has been turned on is run as its kind says.
pub proof fn lemma_toggled_tool_dispatch(
    tools: Seq<ToolView>,
    on_windows: bool,
    name: Seq<char>,
    args: Json,
)
    requires
        first_tool(tools, name) is Some,
    ensures
        dispatch(with_enabled(tools, name, false), on_windows, name, args) == ActionView::Reply(
            "Tool '"@ + name + "' is disabled"@,
        ),
        dispatch(with_enabled(tools, name, true), on_windows, name, args) == plan_call(
            tools[first_tool(tools, name)->0].kind,
            args,
            on_windows,
        ),
{
    lemma_first_tool_bounds(tools, name);
    lemma_with_enabled_keeps_names(tools, name, false, name);
    lemma_with_enabled_keeps_names(tools, name, true, name);
}

/// Turning a tool on offers its schema exactly when it is available;
/// turning it off withdraws it.
pub proof fn lemma_toggle_offers(tools: Seq<ToolView>, name: Seq<char>)
    requires
        first_tool(tools, name) is Some,
    ensures
        ({
            let i = first_tool(tools, name)->0;
            &&& offered_schemas(with_enabled(tools, name, true)).contains(tools[i].schema) <== tools[i].available
            &&& offered_schemas(with_enabled(tools, name, false)) == offered_schemas(tools.update(
                i,
                ToolView { enabled: false, ..tools[i] },
            ))
        }),
{
    lemma_first_tool_bounds(tools, name);
    let i = first_tool(tools, name)->0;
    let after = with_enabled(tools, name, true);
    if tools[i].available {
        lemma_offered_contains(after, i);
    }
}

/// An enabled, available tool's schema is among those offered.
pub proof fn lemma_offered_contains(tools: Seq<ToolView>, i: int)
    requires
        0 <= i < tools.len(),
        tools[i].enabled,
        tools[i].available,
    ensures
        offered_schemas(tools).contains(tools[i].schema),
    decreases tools.len(),
{
    let init = tools.drop_last();
    if i == tools.len() - 1 {
        let o = offered_schemas(tools);
        assert(o[o.len() - 1] == tools[i].schema);
    } else {
        lemma_offered_contains(init, i);
        let w = choose|k: int| 0 <= k < offered_schemas(init).len() && offered_schemas(init)[k] == tools[i].schema;
        assert(offered_schemas(tools)[w] == tools[i].schema);
    }
}

/// Turning a registered tool on or off, where no two tools share a name,
/// keeps the names distinct; the one tool of that name then has the new
/// setting, and every other tool is as it was.
pub proof fn lemma_set_enabled_sets(tools: Seq<ToolView>, name: Seq<char>, enabled: bool)
    requires
        names_unique(tools),
        first_tool(tools, name) is Some,
    ensures
        ({
            let after = with_enabled(tools, name, enabled);
            &&& after.len() == tools.len()
            &&& names_unique(after)
            &&& exists|j: int| 0 <= j < after.len() && (#[trigger] after[j]).name == name
            &&& forall|j: int|
                0 <= j < after.len() && (#[trigger] after[j]).name == name ==> after[j].enabled
                    == enabled
            &&& forall|j: int|
                0 <= j < after.len() && (#[trigger] after[j]).name != name ==> after[j] == tools[j]
        }),
{
    lemma_first_tool_bounds(tools, name);
    lemma_with_enabled_keeps_names(tools, name, enabled, name);
    let i = first_tool(tools, name)->0;
    let after = with_enabled(tools, name, enabled);
    assert(after[i].name == name);
    assert forall|j: int| 0 <= j < after.len() && (#[trigger] after[j]).name == name implies after[j].enabled
        == enabled by {
        assert(tools[j].name == name);
        if j != i {
            if j < i {
                assert(tools[j].name != tools[i].name);
            } else {
                assert(tools[i].name != tools[j].name);
            }
        }
    }
    assert forall|a: int, b: int| 0 <= a < b < after.len() implies after[a].name != after[b].name by {
        assert(after[a].name == tools[a].name);
        assert(after[b].name == tools[b].name);
    }
}

/// The built-in tools have distinct names.
pub proof fn lemma_default_names_unique(on_windows: bool)
    ensures
        names_unique(default_tools(on_windows)),
{
    reveal_strlit("read_file");
    reveal_strlit("write_file");
    reveal_strlit("list_directory");
    reveal_strlit("search_files");
    reveal_strlit("shell_command");
    reveal_strlit("get_env");
    reveal_strlit("computer_screenshot");
    reveal_strlit("computer_click");
    reveal_strlit("computer_type");
    let t = default_tools(on_windows);
    assert(t[0].name.len() == 9 && t[1].name.len() == 10 && t[2].name.len() == 14 && t[3].name.len()
        == 12 && t[4].name.len() == 13 && t[5].name.len() == 7 && t[6].name.len() == 19
        && t[7].name.len() == 14 && t[8].name.len() == 13);
    assert forall|i: int, j: int| 0 <= i < j < t.len() implies (#[trigger] t[i]).name != (
    #[trigger] t[j]).name by {
        if i == 2 && j == 7 {
            assert(t[2].name[0] != t[7].name[0]);
        }
        if i == 4 && j == 8 {
            assert(t[4].name[0] != t[8].name[0]);
        }
    }
}

/// No two tools share a name.
pub open spec fn names_unique(tools: Seq<ToolView>) -> bool {
    forall|i: int, j: int| 0 <= i < j < tools.len() ==> tools[i].name != tools[j].name
}

/// The schemas that are offered to the model: those of the enabled and
/// available tools, in order.
pub open spec fn offered_schemas(tools: Seq<ToolView>) -> Seq<Json>
    decreases tools.len(),
{
    if tools.len() == 0 {
        Seq::empty()
    } else {
        let t = tools.last();
        let rest = offered_schemas(tools.drop_last());
        if t.enabled && t.available {
            rest.push(t.schema)
        } else {
            rest
        }
    }
}

/// The status line of a tool shows its values.
pub open spec fn status_of(s: crate::models::ToolStatus, t: ToolView) -> bool {
    &&& s.name@ == t.name
    &&& s.display_name@ == t.display_name
    &&& s.description@ == t.description
    &&& s.enabled == t.enabled
    &&& s.available == t.available
}

/// What running a tool comes to: an answer at once, or one piece of outside
/// work whose outcome the matching report function turns into the answer.
#[derive(Debug)]
pub enum ToolAction {
    Reply(String),
    ReadFile { path: String },
    WriteFile { path: String, content: String },
    ListDirectory { path: String },
    SearchFiles { query: String, path: String },
    Shell { command: String },
    GetEnv { name: String },
    Screenshot,
    Click { x: i32, y: i32, button: String },
    TypeText { text: String },
}

/// A tool action by its values.
pub enum ActionView {
    Reply(Seq<char>),
    ReadFile(Seq<char>),
    WriteFile(Seq<char>, Seq<char>),
    ListDirectory(Seq<char>),
    SearchFiles(Seq<char>, Seq<char>),
    Shell(Seq<char>),
    GetEnv(Seq<char>),
    Screenshot,
    Click(i32, i32, Seq<char>),
    TypeText(Seq<char>),
}

impl View for ToolAction {
    type V = ActionView;

    open spec fn view(&self) -> ActionView {
        match self {
            ToolAction::Reply(s) => ActionView::Reply(s@),
            ToolAction::ReadFile { path } => ActionView::ReadFile(path@),
            ToolAction::WriteFile { path, content } => ActionView::WriteFile(path@, content@),
            ToolAction::ListDirectory { path } => ActionView::ListDirectory(path@),
            ToolAction::SearchFiles { query, path } => ActionView::SearchFiles(query@, path@),
            ToolAction::Shell { command } => ActionView::Shell(command@),
            ToolAction::GetEnv { name } => ActionView::GetEnv(name@),
            ToolAction::Screenshot => ActionView::Screenshot,
            ToolAction::Click { x, y, button } => ActionView::Click(*x, *y, button@),
            ToolAction::TypeText { text } => ActionView::TypeText(text@),
        }
    }
}

/// The text, or `default` when there is none.
pub open spec fn text_or(o: Option<Seq<char>>, default: Seq<char>) -> Seq<char> {
    match o {
        Some(t) => t,
        None => default,
    }
}

/// The integer, or `default` when there is none.
pub open spec fn int_or(o: Option<i64>, default: i64) -> i64 {
    match o {
        Some(n) => n,
        None => default,
    }
}

/// What a call of an enabled tool of the given kind comes to.
pub open spec fn plan_call(kind: ToolKind, args: Json, on_windows: bool) -> ActionView {
    match kind {
        ToolKind::ReadFile => {
            let path = text_or(member_text(args, "path"@), Seq::empty());
            if path.len() == 0 {
                ActionView::Reply("Error: no path provided"@)
            } else {
                ActionView::ReadFile(path)
            }
        },
        ToolKind::WriteFile => {
            let path = text_or(member_text(args, "path"@), Seq::empty());
            let content = text_or(member_text(args, "content"@), Seq::empty());
            if path.len() == 0 {
                ActionView::Reply("Error: no path provided"@)
            } else {
                ActionView::WriteFile(path, content)
            }
        },
        ToolKind::ListDirectory => ActionView::ListDirectory(
            text_or(member_text(args, "path"@), "."@),
        ),
        ToolKind::SearchFiles => {
            let query = text_or(member_text(args, "query"@), Seq::empty());
            let path = text_or(member_text(args, "path"@), "."@);
            if query.len() == 0 {
                ActionView::Reply("Error: no query provided"@)
            } else {
                ActionView::SearchFiles(query, path)
            }
        },
        ToolKind::Shell => {
            let command = text_or(member_text(args, "command"@), Seq::empty());
            if command.len() == 0 {
                ActionView::Reply("Error: no command provided"@)
            } else {
                ActionView::Shell(command)
            }
        },
        ToolKind::GetEnv => {
            let name = text_or(member_text(args, "name"@), Seq::empty());
            if name.len() == 0 {
                ActionView::Reply("Error: no variable name provided"@)
            } else {
                ActionView::GetEnv(name)
            }
        },
        ToolKind::ComputerScreenshot => if on_windows {
            ActionView::Screenshot
        } else {
            ActionView::Reply("Screenshot tool is only available on Windows"@)
        },
        ToolKind::ComputerClick => {
            let x = int_or(member_int(args, "x"@), 0) as i32;
            let y = int_or(member_int(args, "y"@), 0) as i32;
            let button = text_or(member_text(args, "button"@), "left"@);
            if on_windows {
                ActionView::Click(x, y, button)
            } else {
                ActionView::Reply(
                    "Computer use tools only available on Windows (requested click at "@
                        + signed_decimal(x as int) + ", "@ + signed_decimal(y as int) + ")"@,
                )
            }
        },
        ToolKind::ComputerType => {
            let text = text_or(member_text(args, "text"@), Seq::empty());
            if text.len() == 0 {
                ActionView::Reply("Error: no text provided"@)
            } else if on_windows {
                ActionView::TypeText(text)
            } else {
                ActionView::Reply(
                    "Computer use tools only available on Windows (would type: "@ + text + ")"@,
                )
            }
        },
    }
}

/// What a call of the tool named `name` comes to.
pub open spec fn dispatch(tools: Seq<ToolView>, on_windows: bool, name: Seq<char>, args: Json) -> ActionView {
    match first_tool(tools, name) {
        None => ActionView::Reply("Unknown tool: "@ + name),
        Some(i) => if !tools[i].enabled {
            ActionView::Reply("Tool '"@ + name + "' is disabled"@)
        } else {
            plan_call(tools[i].kind, args, on_windows)
        },
    }
}

/// The text of member `key`, or `default`.
fn text_arg(args: &JsonValue, key: &str, default: &str) -> (r: String)
    ensures
        r@ == text_or(member_text(args@, key@), default@),
{
    match args.member_str(key) {
        Some(t) => t,
        None => owned(default),
    }
}

/// The text of member `key`, or the empty text.
fn text_arg_or_empty(args: &JsonValue, key: &str) -> (r: String)
    ensures
        r@ == text_or(member_text(args@, key@), Seq::empty()),
{
    match args.member_str(key) {
        Some(t) => t,
        None => String::new(),
    }
}

/// `a + b + c` as one text.
fn concat3(a: &str, b: &str, c: &str) -> (r: String)
    ensures
        r@ == a@ + b@ + c@,
{
    let mut r = owned(a);
    push_str(&mut r, b);
    push_str(&mut r, c);
    r
}

/// What a call of an enabled tool of kind `kind` comes to.
#[verifier::spinoff_prover]
#[verifier::rlimit(40)]
fn plan(kind: ToolKind, args: &JsonValue, on_windows: bool) -> (r: ToolAction)
    ensures
        r@ == plan_call(kind, args@, on_windows),
{
    match kind {
        ToolKind::ReadFile => {
            let path = text_arg_or_empty(args, "path");
            if path.as_str().is_empty() {
                ToolAction::Reply(owned("Error: no path provided"))
            } else {
                ToolAction::ReadFile { path }
            }
        },
        ToolKind::WriteFile => {
            let path = text_arg_or_empty(args, "path");
            let content = text_arg_or_empty(args, "content");
            if path.as_str().is_empty() {
                ToolAction::Reply(owned("Error: no path provided"))
            } else {
                ToolAction::WriteFile { path, content }
            }
        },
        ToolKind::ListDirectory => ToolAction::ListDirectory { path: text_arg(args, "path", ".") },
        ToolKind::SearchFiles => {
            let query = text_arg_or_empty(args, "query");
            let path = text_arg(args, "path", ".");
            if query.as_str().is_empty() {
                ToolAction::Reply(owned("Error: no query provided"))
            } else {
                ToolAction::SearchFiles { query, path }
            }
        },
        ToolKind::Shell => {
            let command = text_arg_or_empty(args, "command");
            if command.as_str().is_empty() {
                ToolAction::Reply(owned("Error: no command provided"))
            } else {
                ToolAction::Shell { command }
            }
        },
        ToolKind::GetEnv => {
            let name = text_arg_or_empty(args, "name");
            if name.as_str().is_empty() {
                ToolAction::Reply(owned("Error: no variable name provided"))
            } else {
                ToolAction::GetEnv { name }
            }
        },
        ToolKind::ComputerScreenshot => {
            if on_windows {
                ToolAction::Screenshot
            } else {
                ToolAction::Reply(owned("Screenshot tool is only available on Windows"))
            }
        },
        ToolKind::ComputerClick => {
            let x64: i64 = match args.member_i64("x") {
                Some(n) => n,
                None => 0,
            };
            let y64: i64 = match args.member_i64("y") {
                Some(n) => n,
                None => 0,
            };
            let x: i32 = x64 as i32;
            let y: i32 = y64 as i32;
            let button = text_arg(args, "button", "left");
            if on_windows {
                ToolAction::Click { x, y, button }
            } else {
                let mut m = owned("Computer use tools only available on Windows (requested click at ");
                push_signed_decimal(&mut m, x as i64);
                push_str(&mut m, ", ");
                push_signed_decimal(&mut m, y as i64);
                push_str(&mut m, ")");
                ToolAction::Reply(m)
            }
        },
        ToolKind::ComputerType => {
            let text = text_arg_or_empty(args, "text");
            if text.as_str().is_empty() {
                ToolAction::Reply(owned("Error: no text provided"))
            } else if on_windows {
                ToolAction::TypeText { text }
            } else {
                ToolAction::Reply(
                    concat3(
                        "Computer use tools only available on Windows (would type: ",
                        text.as_str(),
                        ")",
                    ),
                )
            }
        },
    }
}

/// The tools the model may call, each known by its name.
pub struct ToolRegistry {
    tools: Vec<Tool>,
    on_windows: bool,
}

impl ToolRegistry {
    /// No two tools of a registry share a name.
    #[verifier::type_invariant]
    spec fn names_distinct(self) -> bool {
        names_unique(tool_views(self.tools@))
    }

    /// The tools by their values, in order.
    pub closed spec fn tools_view(&self) -> Seq<ToolView> {
        tool_views(self.tools@)
    }

    /// Whether the registry runs on Windows.
    pub closed spec fn on_windows_view(&self) -> bool {
        self.on_windows
    }

    /// The registry with the built-in tools; `on_windows` tells whether the
    /// computer-use tools can work on this machine.
    pub fn new(on_windows: bool) -> (r: ToolRegistry)
        ensures
            r.tools_view() == default_tools(on_windows),
            r.on_windows_view() == on_windows,
            names_unique(r.tools_view()),
            forall|i: int| 0 <= i < r.tools_view().len() ==> schema_fits(#[trigger] r.tools_view()[i]),
    {
        proof {
            lemma_default_names_unique(on_windows);
        }
        let mut tools: Vec<Tool> = Vec::new();
        let p_read = [("path", "string", "File path", true)];
        tools.push(make_tool("read_file", "Read File", "Read the contents of a file", true, true,
            "Read file contents", &p_read, ToolKind::ReadFile));
        let p_write = [("path", "string", "File path", true), ("content", "string", "Content", true)];
        tools.push(make_tool("write_file", "Write File", "Write content to a file", true, true,
            "Write file contents", &p_write, ToolKind::WriteFile));
        let p_list = [("path", "string", "Directory path", false)];
        tools.push(make_tool("list_directory", "List Directory", "List files in a directory", true,
            true, "List directory", &p_list, ToolKind::ListDirectory));
        let p_search = [("query", "string", "Search text", true), ("path", "string", "Directory", false)];
        tools.push(make_tool("search_files", "Search Files", "Search for text in files", true, true,
            "Search files", &p_search, ToolKind::SearchFiles));
        let p_shell = [("command", "string", "Command", true)];
        tools.push(make_tool("shell_command", "Shell Command", "Run a shell command", true, true,
            "Shell command", &p_shell, ToolKind::Shell));
        let p_env = [("name", "string", "Variable name", true)];
        tools.push(make_tool("get_env", "Get Env Var", "Get environment variable", false, true,
            "Get env var", &p_env, ToolKind::GetEnv));
        let p_shot: [(&str, &str, &str, bool); 0] = [];
        tools.push(make_tool("computer_screenshot", "Screenshot", "Take a screenshot", false,
            on_windows, "Screenshot", &p_shot, ToolKind::ComputerScreenshot));
        let p_click = [("x", "integer", "X coord", true), ("y", "integer", "Y coord", true),
            ("button", "string", "Button", false)];
        tools.push(make_tool("computer_click", "Mouse Click", "Click at screen coordinates", false,
            on_windows, "Click at position", &p_click, ToolKind::ComputerClick));
        let p_type = [("text", "string", "Text to type", true)];
        tools.push(make_tool("computer_type", "Type Text", "Type text at cursor position", false,
            on_windows, "Type text", &p_type, ToolKind::ComputerType));
        proof {
            assert(param_views(p_read@) =~= seq![("path"@, "string"@, "File path"@, true)]);
            assert(param_views(p_write@) =~= seq![("path"@, "string"@, "File path"@, true),
                ("content"@, "string"@, "Content"@, true)]);
            assert(param_views(p_list@) =~= seq![("path"@, "string"@, "Directory path"@, false)]);
            assert(param_views(p_search@) =~= seq![("query"@, "string"@, "Search text"@, true),
                ("path"@, "string"@, "Directory"@, false)]);
            assert(param_views(p_shell@) =~= seq![("command"@, "string"@, "Command"@, true)]);
            assert(param_views(p_env@) =~= seq![("name"@, "string"@, "Variable name"@, true)]);
            assert(param_views(p_shot@) =~= seq![]);
            assert(param_views(p_click@) =~= seq![("x"@, "integer"@, "X coord"@, true),
                ("y"@, "integer"@, "Y coord"@, true), ("button"@, "string"@, "Button"@, false)]);
            assert(param_views(p_type@) =~= seq![("text"@, "string"@, "Text to type"@, true)]);
            assert(tool_views(tools@) =~= default_tools(on_windows));
            lemma_default_schemas_fit(on_windows);
        }
        ToolRegistry { tools, on_windows }
    }

    /// The position of the first tool named `name`.
    fn find(&self, name: &str) -> (r: Option<usize>)
        ensures
            match r {
                Some(i) => first_tool(self.tools_view(), name@) == Some(i as int) && i
                    < self.tools_view().len(),
                None => first_tool(self.tools_view(), name@) is None,
            },
    {
        let ghost tv = self.tools_view();
        let mut i: usize = 0;
        while i < self.tools.len()
            invariant
                tv == tool_views(self.tools@),
                tv.len() == self.tools@.len(),
                i <= self.tools.len(),
                forall|j: int| 0 <= j < i ==> tv[j].name != name@,
            decreases self.tools.len() - i,
        {
            if str_eq(self.tools[i].name.as_str(), name) {
                proof {
                    lemma_first_tool_at(tv, name@, i as int);
                }
                return Some(i);
            }
            i = i + 1;
        }
        None
    }

    /// The schemas of the tools that are enabled and available, in order.
    pub fn enabled_schemas(&self) -> (r: Vec<JsonValue>)
        ensures
            json_items(r@) == offered_schemas(self.tools_view()),
    {
        let ghost tv = self.tools_view();
        let mut r: Vec<JsonValue> = Vec::new();
        let mut i: usize = 0;
        while i < self.tools.len()
            invariant
                tv == tool_views(self.tools@),
                tv.len() == self.tools@.len(),
                i <= self.tools.len(),
                json_items(r@) == offered_schemas(tv.take(i as int)),
            decreases self.tools.len() - i,
        {
            let t = &self.tools[i];
            proof {
                assert(tv.take(i + 1).drop_last() =~= tv.take(i as int));
                assert(tv.take(i + 1).last() == t@);
            }
            if t.enabled && t.available {
                let c = t.schema.deep_copy();
                proof {
                    lemma_json_items_push(r@, c);
                }
                r.push(c);
            }
            i = i + 1;
        }
        assert(tv.take(self.tools.len() as int) =~= tv);
        r
    }

    /// The status of every tool, in order: one entry per tool, so no name
    /// comes twice.
    pub fn status(&self) -> (r: Vec<ToolStatus>)
        ensures
            r@.len() == self.tools_view().len(),
            forall|i: int| 0 <= i < r@.len() ==> status_of(#[trigger] r@[i], self.tools_view()[i]),
            names_unique(self.tools_view()),
            forall|i: int, j: int| 0 <= i < j < r@.len() ==> (#[trigger] r@[i]).name@ != (#[trigger] r@[j]).name@,
    {
        proof {
            use_type_invariant(self);
        }
        let ghost tv = self.tools_view();
        let mut r: Vec<ToolStatus> = Vec::new();
        let mut i: usize = 0;
        while i < self.tools.len()
            invariant
                tv == tool_views(self.tools@),
                tv.len() == self.tools@.len(),
                i <= self.tools.len(),
                r@.len() == i,
                forall|k: int| 0 <= k < i ==> status_of(#[trigger] r@[k], tv[k]),
            decreases self.tools.len() - i,
        {
            let t = &self.tools[i];
            r.push(
                ToolStatus {
                    name: t.name.clone(),
                    display_name: t.display_name.clone(),
                    description: t.description.clone(),
                    enabled: t.enabled,
                    available: t.available,
                },
            );
            i = i + 1;
        }
        r
    }

    /// Turns the tool named `name` on or off; other tools, and an unknown
    /// name, leave the registry as it was.
    #[verifier::spinoff_prover]
    pub fn set_enabled(&mut self, name: &str, enabled: bool)
        ensures
            final(self).on_windows_view() == old(self).on_windows_view(),
            names_unique(final(self).tools_view()),
            final(self).tools_view() == with_enabled(old(self).tools_view(), name@, enabled),
    {
        proof {
            use_type_invariant(&*self);
        }
        match self.find(name) {
            Some(i) => {
                let mut tools: Vec<Tool> = Vec::new();
                std::mem::swap(&mut tools, &mut self.tools);
                let ghost before = tools@;
                let mut t = tools.remove(i);
                t.enabled = enabled;
                tools.insert(i, t);
                proof {
                    assert(tools@ =~= before.update(i as int, t));
                    lemma_tool_views_update(before, i as int, t);
                    assert(t@ == ToolView { enabled, ..tool_views(before)[i as int] });
                    lemma_with_enabled_keeps_names(tool_views(before), name@, enabled, name@);
                }
                self.tools = tools;
            },
            None => {},
        }
    }

    /// What calling the tool named `name` with `args` comes to: an unknown
    /// name and a disabled tool are answered at once, an enabled tool reads
    /// its arguments (see `plan_call`).
    pub fn execute(&self, name: &str, args: &JsonValue) -> (r: ToolAction)
        ensures
            r@ == dispatch(self.tools_view(), self.on_windows_view(), name@, args@),
    {
        match self.find(name) {
            None => {
                let mut m = owned("Unknown tool: ");
                push_str(&mut m, name);
                ToolAction::Reply(m)
            },
            Some(i) => {
                let t = &self.tools[i];
                if !t.enabled {
                    ToolAction::Reply(concat3("Tool '", name, "' is disabled"))
                } else {
                    plan(t.kind, args, self.on_windows)
                }
            },
        }
    }
}


/// The `parameters` object of a function-calling schema.
pub open spec fn schema_parameters(schema: Json) -> Option<Json> {
    match lookup(schema, "function"@) {
        Some(f) => lookup(f, "parameters"@),
        None => None,
    }
}

/// The names of the members of an object, in order.
pub open spec fn member_names(entries: Seq<(Seq<char>, Json)>) -> Seq<Seq<char>> {
    entries.map_values(|m: (Seq<char>, Json)| m.0)
}

/// The names of the parameters, in order.
pub open spec fn param_names(params: Seq<ParamView>) -> Seq<Seq<char>> {
    params.map_values(|p: ParamView| p.0)
}

/// The parameters that a schema declares, by name and description, in order.
pub open spec fn declared_properties(schema: Json) -> Seq<(Seq<char>, Json)> {
    match schema_parameters(schema) {
        Some(p) => match lookup(p, "properties"@) {
            Some(Json::Object(props)) => props,
            _ => Seq::empty(),
        },
        None => Seq::empty(),
    }
}

/// The names of the parameters that a schema declares, in order.
pub open spec fn declared_params(schema: Json) -> Seq<Seq<char>> {
    member_names(declared_properties(schema))
}

/// Each parameter by name with its JSON description.
pub open spec fn properties_of(params: Seq<ParamView>) -> Seq<(Seq<char>, Json)> {
    params.map_values(|p: ParamView| (p.0, param_json(p)))
}

/// The JSON type in which a call of a tool of this kind reads member `k`:
/// the click's coordinates are integers, every other member is text.
pub open spec fn member_type(kind: ToolKind, k: Seq<char>) -> Seq<char> {
    if kind == ToolKind::ComputerClick && (k == "x"@ || k == "y"@) {
        "integer"@
    } else {
        "string"@
    }
}

/// What a schema lists as required.
pub open spec fn declared_required(schema: Json) -> Seq<Json> {
    match schema_parameters(schema) {
        Some(p) => match lookup(p, "required"@) {
            Some(Json::Array(items)) => items,
            _ => Seq::empty(),
        },
        None => Seq::empty(),
    }
}

/// The function name that a schema declares.
pub open spec fn declared_name(schema: Json) -> Option<Json> {
    match lookup(schema, "function"@) {
        Some(f) => lookup(f, "name"@),
        None => None,
    }
}

/// No two parameters share a name.
pub open spec fn params_distinct(params: Seq<ParamView>) -> bool {
    forall|i: int, j: int| 0 <= i < j < params.len() ==> params[i].0 != params[j].0
}

/// With distinct names, the properties of a schema are the parameters, by
/// name and in order.
pub proof fn lemma_properties_names(params: Seq<ParamView>)
    requires
        params_distinct(params),
    ensures
        schema_properties(params) == properties_of(params),
        member_names(schema_properties(params)) == param_names(params),
    decreases params.len(),
{
    if params.len() > 0 {
        let init = params.drop_last();
        let p = params.last();
        assert(params_distinct(init)) by {
            assert forall|i: int, j: int| 0 <= i < j < init.len() implies init[i].0 != init[j].0 by {
                assert(params[i].0 != params[j].0);
            }
        }
        lemma_properties_names(init);
        let props = schema_properties(init);
        lemma_first_member_bounds(props, p.0);
        assert(member_names(props).len() == props.len());
        if first_member(props, p.0) is Some {
            let i = first_member(props, p.0)->0;
            assert(member_names(props)[i] == props[i].0);
            assert(param_names(init)[i] == init[i].0);
            assert(params[i].0 != params[params.len() - 1].0);
        }
        assert(member_names(props.push((p.0, param_json(p)))) =~= member_names(props).push(p.0));
        assert(param_names(params) =~= param_names(init).push(p.0));
        assert(properties_of(params) =~= properties_of(init).push((p.0, param_json(p))));
    } else {
        assert(properties_of(params) =~= Seq::<(Seq<char>, Json)>::empty());
        assert(member_names(schema_properties(params)) =~= param_names(params));
    }
}

/// What a schema built from `params` declares: the function's name, the
/// parameters by name in order, and the required ones.
pub proof fn lemma_schema_declares(name: Seq<char>, description: Seq<char>, params: Seq<ParamView>)
    requires
        params_distinct(params),
    ensures
        declared_name(schema_json(name, description, params)) == Some(Json::String(name)),
        declared_properties(schema_json(name, description, params)) == properties_of(params),
        declared_params(schema_json(name, description, params)) == param_names(params),
        declared_required(schema_json(name, description, params)) == schema_required(params),
{
    reveal_strlit("type");
    reveal_strlit("function");
    reveal_strlit("name");
    reveal_strlit("description");
    reveal_strlit("parameters");
    reveal_strlit("properties");
    reveal_strlit("required");
    let top = seq![
        ("type"@, Json::String("function"@)),
        ("function"@, Json::Object(seq![
            ("name"@, Json::String(name)),
            ("description"@, Json::String(description)),
            ("parameters"@, Json::Object(seq![
                ("type"@, Json::String("object"@)),
                ("properties"@, Json::Object(schema_properties(params))),
                ("required"@, Json::Array(schema_required(params))),
            ])),
        ])),
    ];
    assert(schema_json(name, description, params) == Json::Object(top));
    assert("type"@.len() == 4 && "function"@.len() == 8 && "name"@.len() == 4 && "description"@.len()
        == 11 && "parameters"@.len() == 10 && "properties"@.len() == 10 && "required"@.len() == 8);
    assert(top[0].0 != "function"@);
    lemma_first_member_at(top, "function"@, 1);
    let f = top[1].1->Object_0;
    lemma_first_member_at(f, "name"@, 0);
    assert(f[0].0 != "parameters"@ && f[1].0 != "parameters"@);
    lemma_first_member_at(f, "parameters"@, 2);
    let ps = f[2].1->Object_0;
    assert(ps[0].0 != "properties"@ && ps[0].0 != "required"@ && ps[1].0 != "required"@);
    lemma_first_member_at(ps, "properties"@, 1);
    lemma_first_member_at(ps, "required"@, 2);
    lemma_properties_names(params);
}


/// The argument members that a call of a tool of this kind reads, in the
/// order its schema lists them.
pub open spec fn read_members(kind: ToolKind) -> Seq<Seq<char>> {
    match kind {
        ToolKind::ReadFile => seq!["path"@],
        ToolKind::WriteFile => seq!["path"@, "content"@],
        ToolKind::ListDirectory => seq!["path"@],
        ToolKind::SearchFiles => seq!["query"@, "path"@],
        ToolKind::Shell => seq!["command"@],
        ToolKind::GetEnv => seq!["name"@],
        ToolKind::ComputerScreenshot => seq![],
        ToolKind::ComputerClick => seq!["x"@, "y"@, "button"@],
        ToolKind::ComputerType => seq!["text"@],
    }
}

/// The member without which a call of a tool of this kind is refused.
pub open spec fn mandatory_member(kind: ToolKind) -> Option<Seq<char>> {
    match kind {
        ToolKind::ReadFile => Some("path"@),
        ToolKind::WriteFile => Some("path"@),
        ToolKind::SearchFiles => Some("query"@),
        ToolKind::Shell => Some("command"@),
        ToolKind::GetEnv => Some("name"@),
        ToolKind::ComputerType => Some("text"@),
        _ => None,
    }
}

/// A call depends on its arguments only through the members that its kind
/// reads: two argument objects that agree on those give the same call.
#[verifier::rlimit(60)]
#[verifier::spinoff_prover]
pub proof fn lemma_plan_reads_only(kind: ToolKind, a1: Json, a2: Json, on_windows: bool)
    requires
        forall|k: Seq<char>| read_members(kind).contains(k) ==> lookup(a1, k) == lookup(a2, k),
    ensures
        plan_call(kind, a1, on_windows) == plan_call(kind, a2, on_windows),
{
    let m = read_members(kind);
    if m.len() > 0 {
        assert(m.contains(m[0]));
        assert(member_text(a1, m[0]) == member_text(a2, m[0]));
        assert(member_int(a1, m[0]) == member_int(a2, m[0]));
    }
    if m.len() > 1 {
        assert(m.contains(m[1]));
        assert(member_text(a1, m[1]) == member_text(a2, m[1]));
        assert(member_int(a1, m[1]) == member_int(a2, m[1]));
    }
    if m.len() > 2 {
        assert(m.contains(m[2]));
        assert(member_text(a1, m[2]) == member_text(a2, m[2]));
    }
    match kind {
        ToolKind::ReadFile => {},
        ToolKind::WriteFile => {},
        ToolKind::ListDirectory => {},
        ToolKind::SearchFiles => {},
        ToolKind::Shell => {},
        ToolKind::GetEnv => {},
        ToolKind::ComputerScreenshot => {},
        ToolKind::ComputerClick => {},
        ToolKind::ComputerType => {},
    }
}

/// A call whose mandatory member is missing, not text, or empty is refused
/// with an answer, and nothing is done.
pub proof fn lemma_missing_member_refused(kind: ToolKind, args: Json, on_windows: bool)
    requires
        mandatory_member(kind) is Some,
        match member_text(args, mandatory_member(kind)->0) {
            Some(t) => t.len() == 0,
            None => true,
        },
    ensures
        plan_call(kind, args, on_windows) is Reply,
        kind == ToolKind::ReadFile || kind == ToolKind::WriteFile ==> plan_call(kind, args, on_windows)
            == ActionView::Reply("Error: no path provided"@),
        kind == ToolKind::SearchFiles ==> plan_call(kind, args, on_windows) == ActionView::Reply(
            "Error: no query provided"@,
        ),
        kind == ToolKind::Shell ==> plan_call(kind, args, on_windows) == ActionView::Reply(
            "Error: no command provided"@,
        ),
        kind == ToolKind::GetEnv ==> plan_call(kind, args, on_windows) == ActionView::Reply(
            "Error: no variable name provided"@,
        ),
        kind == ToolKind::ComputerType ==> plan_call(kind, args, on_windows) == ActionView::Reply(
            "Error: no text provided"@,
        ),
{
}

/// A tool's schema fits the tool: it names the function as the tool is
/// named, declares exactly the argument members that the tool's calls read,
/// in order, marks only those as required, and marks as required the member
/// without which a call is refused.
pub open spec fn schema_fits(t: ToolView) -> bool {
    &&& declared_name(t.schema) == Some(Json::String(t.name))
    &&& declared_params(t.schema) == read_members(t.kind)
    &&& forall|j: int|
        0 <= j < declared_required(t.schema).len() ==> (#[trigger] declared_required(t.schema)[j] matches Json::String(k)
            && read_members(t.kind).contains(k))
    &&& (mandatory_member(t.kind) matches Some(k) ==> declared_required(t.schema).contains(
        Json::String(k),
    ))
    &&& forall|j: int|
        0 <= j < declared_properties(t.schema).len() ==> lookup(
            (#[trigger] declared_properties(t.schema)[j]).1,
            "type"@,
        ) == Some(Json::String(member_type(t.kind, declared_properties(t.schema)[j].0)))
}

/// A tool fits its schema when the schema was built from parameters that
/// are the members its calls read.
#[verifier::spinoff_prover]
proof fn lemma_fits_from(t: ToolView, description: Seq<char>, params: Seq<ParamView>)
    requires
        t.schema == schema_json(t.name, description, params),
        params_distinct(params),
        param_names(params) == read_members(t.kind),
        forall|j: int|
            0 <= j < schema_required(params).len() ==> (#[trigger] schema_required(params)[j] matches Json::String(k)
                && read_members(t.kind).contains(k)),
        mandatory_member(t.kind) matches Some(k) ==> schema_required(params).contains(Json::String(k)),
        forall|j: int| 0 <= j < params.len() ==> (#[trigger] params[j]).1 == member_type(t.kind, params[j].0),
    ensures
        schema_fits(t),
{
    lemma_schema_declares(t.name, description, params);
    let props = declared_properties(t.schema);
    assert forall|j: int| 0 <= j < props.len() implies lookup((#[trigger] props[j]).1, "type"@) == Some(
        Json::String(member_type(t.kind, props[j].0)),
    ) by {
        assert(props[j] == (params[j].0, param_json(params[j])));
        lemma_param_json_type(params[j]);
    }
}

/// A parameter's description states its JSON type.
proof fn lemma_param_json_type(p: ParamView)
    ensures
        lookup(param_json(p), "type"@) == Some(Json::String(p.1)),
{
    let e = seq![("type"@, Json::String(p.1)), ("description"@, Json::String(p.2))];
    lemma_first_member_at(e, "type"@, 0);
}

/// The read file tool fits its schema.
proof fn lemma_fits_read_file(t: ToolView)
    requires
        t.kind == ToolKind::ReadFile,
        t.schema == schema_json(t.name, "Read file contents"@, seq![("path"@, "string"@, "File path"@, true)]),
    ensures
        schema_fits(t),
{
        reveal_strlit("path");
        let p = seq![("path"@, "string"@, "File path"@, true)];
        reveal_with_fuel(schema_required, 2);
        let r = schema_required(p);
        assert(r =~= seq![Json::String("path"@)]);
        assert(r.contains(r[0]));
        assert(param_names(p) =~= read_members(ToolKind::ReadFile));
        assert(read_members(ToolKind::ReadFile).contains("path"@)) by {
            assert(read_members(ToolKind::ReadFile)[0] == "path"@);
        }
        lemma_fits_from(t, "Read file contents"@, p);
}

/// The write file tool fits its schema.
proof fn lemma_fits_write_file(t: ToolView)
    requires
        t.kind == ToolKind::WriteFile,
        t.schema == schema_json(t.name, "Write file contents"@, seq![("path"@, "string"@, "File path"@, true), ("content"@, "string"@, "Content"@, true)]),
    ensures
        schema_fits(t),
{
        reveal_strlit("path");
        reveal_strlit("content");
        let p = seq![("path"@, "string"@, "File path"@, true), ("content"@, "string"@, "Content"@, true)];
        assert("path"@.len() != "content"@.len());
        reveal_with_fuel(schema_required, 3);
        let r = schema_required(p);
        let m = read_members(ToolKind::WriteFile);
        assert(r =~= seq![Json::String("path"@), Json::String("content"@)]);
        assert(r.contains(r[0]));
        assert(m.contains(m[0]) && m.contains(m[1]));
        assert(param_names(p) =~= m);
        lemma_fits_from(t, "Write file contents"@, p);
}

/// The list directory tool fits its schema.
proof fn lemma_fits_list_directory(t: ToolView)
    requires
        t.kind == ToolKind::ListDirectory,
        t.schema == schema_json(t.name, "List directory"@, seq![("path"@, "string"@, "Directory path"@, false)]),
    ensures
        schema_fits(t),
{
        let p = seq![("path"@, "string"@, "Directory path"@, false)];
        reveal_with_fuel(schema_required, 2);
        assert(schema_required(p) =~= Seq::<Json>::empty());
        assert(param_names(p) =~= read_members(ToolKind::ListDirectory));
        lemma_fits_from(t, "List directory"@, p);
}

/// The search files tool fits its schema.
proof fn lemma_fits_search_files(t: ToolView)
    requires
        t.kind == ToolKind::SearchFiles,
        t.schema == schema_json(t.name, "Search files"@, seq![("query"@, "string"@, "Search text"@, true), ("path"@, "string"@, "Directory"@, false)]),
    ensures
        schema_fits(t),
{
        reveal_strlit("path");
        reveal_strlit("query");
        let p = seq![("query"@, "string"@, "Search text"@, true), ("path"@, "string"@, "Directory"@, false)];
        assert("path"@.len() != "query"@.len());
        reveal_with_fuel(schema_required, 3);
        let r = schema_required(p);
        let m = read_members(ToolKind::SearchFiles);
        assert(r =~= seq![Json::String("query"@)]);
        assert(r.contains(r[0]));
        assert(m.contains(m[0]));
        assert(param_names(p) =~= m);
        lemma_fits_from(t, "Search files"@, p);
}

/// The shell tool fits its schema.
proof fn lemma_fits_shell(t: ToolView)
    requires
        t.kind == ToolKind::Shell,
        t.schema == schema_json(t.name, "Shell command"@, seq![("command"@, "string"@, "Command"@, true)]),
    ensures
        schema_fits(t),
{
        let p = seq![("command"@, "string"@, "Command"@, true)];
        reveal_with_fuel(schema_required, 2);
        let r = schema_required(p);
        let m = read_members(ToolKind::Shell);
        assert(r =~= seq![Json::String("command"@)]);
        assert(r.contains(r[0]));
        assert(m.contains(m[0]));
        assert(param_names(p) =~= m);
        lemma_fits_from(t, "Shell command"@, p);
}

/// The get env tool fits its schema.
proof fn lemma_fits_get_env(t: ToolView)
    requires
        t.kind == ToolKind::GetEnv,
        t.schema == schema_json(t.name, "Get env var"@, seq![("name"@, "string"@, "Variable name"@, true)]),
    ensures
        schema_fits(t),
{
        let p = seq![("name"@, "string"@, "Variable name"@, true)];
        reveal_with_fuel(schema_required, 2);
        let r = schema_required(p);
        let m = read_members(ToolKind::GetEnv);
        assert(r =~= seq![Json::String("name"@)]);
        assert(r.contains(r[0]));
        assert(m.contains(m[0]));
        assert(param_names(p) =~= m);
        lemma_fits_from(t, "Get env var"@, p);
}

/// The screenshot tool fits its schema.
proof fn lemma_fits_screenshot(t: ToolView)
    requires
        t.kind == ToolKind::ComputerScreenshot,
        t.schema == schema_json(t.name, "Screenshot"@, Seq::<ParamView>::empty()),
    ensures
        schema_fits(t),
{
        let p: Seq<ParamView> = seq![];
        assert(schema_required(p) =~= Seq::<Json>::empty());
        assert(param_names(p) =~= read_members(ToolKind::ComputerScreenshot));
        lemma_fits_from(t, "Screenshot"@, p);
}

/// The click tool fits its schema.
proof fn lemma_fits_click(t: ToolView)
    requires
        t.kind == ToolKind::ComputerClick,
        t.schema == schema_json(t.name, "Click at position"@, seq![
            ("x"@, "integer"@, "X coord"@, true),
            ("y"@, "integer"@, "Y coord"@, true),
            ("button"@, "string"@, "Button"@, false),
        ]),
    ensures
        schema_fits(t),
{
        reveal_strlit("x");
        reveal_strlit("y");
        reveal_strlit("button");
        let p = seq![
            ("x"@, "integer"@, "X coord"@, true),
            ("y"@, "integer"@, "Y coord"@, true),
            ("button"@, "string"@, "Button"@, false),
        ];
        assert("x"@[0] != "y"@[0] && "x"@.len() != "button"@.len() && "y"@.len() != "button"@.len());
        reveal_with_fuel(schema_required, 4);
        let r = schema_required(p);
        let m = read_members(ToolKind::ComputerClick);
        assert(r =~= seq![Json::String("x"@), Json::String("y"@)]);
        assert(m.contains(m[0]) && m.contains(m[1]));
        assert(param_names(p) =~= m);
        lemma_fits_from(t, "Click at position"@, p);
}

/// The type tool fits its schema.
proof fn lemma_fits_type(t: ToolView)
    requires
        t.kind == ToolKind::ComputerType,
        t.schema == schema_json(t.name, "Type text"@, seq![("text"@, "string"@, "Text to type"@, true)]),
    ensures
        schema_fits(t),
{
        let p = seq![("text"@, "string"@, "Text to type"@, true)];
        reveal_with_fuel(schema_required, 2);
        let r = schema_required(p);
        let m = read_members(ToolKind::ComputerType);
        assert(r =~= seq![Json::String("text"@)]);
        assert(r.contains(r[0]));
        assert(m.contains(m[0]));
        assert(param_names(p) =~= m);
        lemma_fits_from(t, "Type text"@, p);
}

/// The built-in tool at position `i` fits its schema.
#[verifier::spinoff_prover]
proof fn lemma_default_schema_fits_at(on_windows: bool, i: int)
    requires
        0 <= i < 9,
    ensures
        schema_fits(default_tools(on_windows)[i]),
{
    let t = default_tools(on_windows);
    if i == 0 {
        lemma_fits_read_file(t[0]);
    } else if i == 1 {
        lemma_fits_write_file(t[1]);
    } else if i == 2 {
        lemma_fits_list_directory(t[2]);
    } else if i == 3 {
        lemma_fits_search_files(t[3]);
    } else if i == 4 {
        lemma_fits_shell(t[4]);
    } else if i == 5 {
        lemma_fits_get_env(t[5]);
    } else if i == 6 {
        lemma_fits_screenshot(t[6]);
    } else if i == 7 {
        lemma_fits_click(t[7]);
    } else {
        lemma_fits_type(t[8]);
    }
}

/// Every built-in tool's schema fits the tool.
pub proof fn lemma_default_schemas_fit(on_windows: bool)
    ensures
        forall|i: int| 0 <= i < default_tools(on_windows).len() ==> schema_fits(
            #[trigger] default_tools(on_windows)[i],
        ),
{
    assert(default_tools(on_windows).len() == 9);
    assert forall|i: int| 0 <= i < default_tools(on_windows).len() implies schema_fits(
        #[trigger] default_tools(on_windows)[i],
    ) by {
        lemma_default_schema_fits_at(on_windows, i);
    }
}


/// What calls carry: each tool's call is made with exactly the argument
/// texts and numbers that the model gave, and an absent optional member
/// takes its default.
/// The file tools' calls carry the path and content given.
#[verifier::spinoff_prover]
pub proof fn lemma_file_calls_carry(args: Json, on_windows: bool)
    ensures
        member_text(args, "path"@) matches Some(p) ==> (p.len() > 0 ==> plan_call(
            ToolKind::ReadFile,
            args,
            on_windows,
        ) == ActionView::ReadFile(p)),
        member_text(args, "path"@) matches Some(p) ==> (p.len() > 0 ==> (member_text(
            args,
            "content"@,
        ) matches Some(c) ==> plan_call(ToolKind::WriteFile, args, on_windows)
            == ActionView::WriteFile(p, c))),
        member_text(args, "path"@) matches Some(p) ==> (p.len() > 0 ==> (member_text(
            args,
            "content"@,
        ) is None ==> plan_call(ToolKind::WriteFile, args, on_windows) == ActionView::WriteFile(
            p,
            Seq::empty(),
        ))),
{
}

/// Listing and searching carry the path and query given; a missing path means the current folder.
#[verifier::spinoff_prover]
pub proof fn lemma_listing_calls_carry(args: Json, on_windows: bool)
    ensures
        member_text(args, "path"@) matches Some(p) ==> plan_call(
            ToolKind::ListDirectory,
            args,
            on_windows,
        ) == ActionView::ListDirectory(p),
        member_text(args, "path"@) is None ==> plan_call(ToolKind::ListDirectory, args, on_windows)
            == ActionView::ListDirectory("."@),
        member_text(args, "query"@) matches Some(q) ==> (q.len() > 0 ==> (member_text(
            args,
            "path"@,
        ) matches Some(p) ==> plan_call(ToolKind::SearchFiles, args, on_windows)
            == ActionView::SearchFiles(q, p))),
        member_text(args, "query"@) matches Some(q) ==> (q.len() > 0 ==> (member_text(
            args,
            "path"@,
        ) is None ==> plan_call(ToolKind::SearchFiles, args, on_windows) == ActionView::SearchFiles(
            q,
            "."@,
        ))),
{
}

/// Commands, variable names and typed text are carried as given, and a screenshot needs no argument.
#[verifier::spinoff_prover]
pub proof fn lemma_command_calls_carry(args: Json, on_windows: bool)
    ensures
        member_text(args, "command"@) matches Some(c) ==> (c.len() > 0 ==> plan_call(
            ToolKind::Shell,
            args,
            on_windows,
        ) == ActionView::Shell(c)),
        member_text(args, "name"@) matches Some(n) ==> (n.len() > 0 ==> plan_call(
            ToolKind::GetEnv,
            args,
            on_windows,
        ) == ActionView::GetEnv(n)),
        member_text(args, "text"@) matches Some(t) ==> (t.len() > 0 && on_windows ==> plan_call(
            ToolKind::ComputerType,
            args,
            on_windows,
        ) == ActionView::TypeText(t)),
        on_windows ==> plan_call(ToolKind::ComputerScreenshot, args, on_windows)
            == ActionView::Screenshot,
{
}

/// A click carries the coordinates and button given; the left button by default.
#[verifier::spinoff_prover]
pub proof fn lemma_click_calls_carry(args: Json, on_windows: bool)
    ensures
        member_int(args, "x"@) matches Some(x) ==> (member_int(args, "y"@) matches Some(y) ==> (
        member_text(args, "button"@) matches Some(b) ==> (on_windows ==> plan_call(
            ToolKind::ComputerClick,
            args,
            on_windows,
        ) == ActionView::Click(x as i32, y as i32, b)))),
        member_int(args, "x"@) matches Some(x) ==> (member_int(args, "y"@) matches Some(y) ==> (
        member_text(args, "button"@) is None ==> (on_windows ==> plan_call(
            ToolKind::ComputerClick,
            args,
            on_windows,
        ) == ActionView::Click(x as i32, y as i32, "left"@)))),
{
}

pub proof fn lemma_calls_carry_arguments(args: Json, on_windows: bool)
    ensures
        member_text(args, "path"@) matches Some(p) ==> (p.len() > 0 ==> plan_call(
            ToolKind::ReadFile,
            args,
            on_windows,
        ) == ActionView::ReadFile(p)),
        member_text(args, "path"@) matches Some(p) ==> (p.len() > 0 ==> (member_text(
            args,
            "content"@,
        ) matches Some(c) ==> plan_call(ToolKind::WriteFile, args, on_windows)
            == ActionView::WriteFile(p, c))),
        member_text(args, "path"@) matches Some(p) ==> (p.len() > 0 ==> (member_text(
            args,
            "content"@,
        ) is None ==> plan_call(ToolKind::WriteFile, args, on_windows) == ActionView::WriteFile(
            p,
            Seq::empty(),
        ))),
        member_text(args, "path"@) matches Some(p) ==> plan_call(
            ToolKind::ListDirectory,
            args,
            on_windows,
        ) == ActionView::ListDirectory(p),
        member_text(args, "path"@) is None ==> plan_call(ToolKind::ListDirectory, args, on_windows)
            == ActionView::ListDirectory("."@),
        member_text(args, "query"@) matches Some(q) ==> (q.len() > 0 ==> (member_text(
            args,
            "path"@,
        ) matches Some(p) ==> plan_call(ToolKind::SearchFiles, args, on_windows)
            == ActionView::SearchFiles(q, p))),
        member_text(args, "query"@) matches Some(q) ==> (q.len() > 0 ==> (member_text(
            args,
            "path"@,
        ) is None ==> plan_call(ToolKind::SearchFiles, args, on_windows) == ActionView::SearchFiles(
            q,
            "."@,
        ))),
        member_text(args, "command"@) matches Some(c) ==> (c.len() > 0 ==> plan_call(
            ToolKind::Shell,
            args,
            on_windows,
        ) == ActionView::Shell(c)),
        member_text(args, "name"@) matches Some(n) ==> (n.len() > 0 ==> plan_call(
            ToolKind::GetEnv,
            args,
            on_windows,
        ) == ActionView::GetEnv(n)),
        member_text(args, "text"@) matches Some(t) ==> (t.len() > 0 && on_windows ==> plan_call(
            ToolKind::ComputerType,
            args,
            on_windows,
        ) == ActionView::TypeText(t)),
        on_windows ==> plan_call(ToolKind::ComputerScreenshot, args, on_windows)
            == ActionView::Screenshot,
        member_int(args, "x"@) matches Some(x) ==> (member_int(args, "y"@) matches Some(y) ==> (
        member_text(args, "button"@) matches Some(b) ==> (on_windows ==> plan_call(
            ToolKind::ComputerClick,
            args,
            on_windows,
        ) == ActionView::Click(x as i32, y as i32, b)))),
        member_int(args, "x"@) matches Some(x) ==> (member_int(args, "y"@) matches Some(y) ==> (
        member_text(args, "button"@) is None ==> (on_windows ==> plan_call(
            ToolKind::ComputerClick,
            args,
            on_windows,
        ) == ActionView::Click(x as i32, y as i32, "left"@)))),
{
    lemma_file_calls_carry(args, on_windows);
    lemma_listing_calls_carry(args, on_windows);
    lemma_command_calls_carry(args, on_windows);
    lemma_click_calls_carry(args, on_windows);
}

/// Calling an enabled tool of a registry whose names are distinct makes the
/// call of that tool's kind with the arguments given.
pub proof fn lemma_named_tool_runs(tools: Seq<ToolView>, on_windows: bool, i: int, args: Json)
    requires
        names_unique(tools),
        0 <= i < tools.len(),
        tools[i].enabled,
    ensures
        dispatch(tools, on_windows, tools[i].name, args) == plan_call(tools[i].kind, args, on_windows),
{
    assert forall|j: int| 0 <= j < i implies tools[j].name != tools[i].name by {}
    lemma_first_tool_at(tools, tools[i].name, i);
}

/// A new registry's `write_file` writes the text of the `content` argument,
/// exactly, to the path given; without that argument it writes nothing.
pub proof fn lemma_new_registry_writes_content(on_windows: bool, args: Json)
    ensures
        member_text(args, "path"@) matches Some(p) ==> (p.len() > 0 ==> (member_text(
            args,
            "content"@,
        ) matches Some(c) ==> dispatch(default_tools(on_windows), on_windows, "write_file"@, args)
            == ActionView::WriteFile(p, c))),
        member_text(args, "path"@) matches Some(p) ==> (p.len() > 0 ==> (member_text(
            args,
            "content"@,
        ) is None ==> dispatch(default_tools(on_windows), on_windows, "write_file"@, args)
            == ActionView::WriteFile(p, Seq::empty()))),
{
    let t = default_tools(on_windows);
    lemma_default_names_unique(on_windows);
    assert(t[1].name == "write_file"@ && t[1].enabled && t[1].kind == ToolKind::WriteFile);
    lemma_named_tool_runs(t, on_windows, 1, args);
    lemma_calls_carry_arguments(args, on_windows);
}


/// Whether a tool is offered to the model: enabled and available.
pub open spec fn is_offered() -> spec_fn(ToolView) -> bool {
    |t: ToolView| t.enabled && t.available
}

/// The schemas offered are those of the enabled and available tools, each
/// once, in the registry's order; no other tool's schema is offered.
pub proof fn lemma_offered_are_enabled_available(tools: Seq<ToolView>)
    ensures
        offered_schemas(tools) == tools.filter(is_offered()).map_values(|t: ToolView| t.schema),
    decreases tools.len(),
{
    reveal(Seq::filter);
    if tools.len() > 0 {
        let init = tools.drop_last();
        lemma_offered_are_enabled_available(init);
        let f = init.filter(is_offered());
        assert(f.push(tools.last()).map_values(|t: ToolView| t.schema) =~= f.map_values(
            |t: ToolView| t.schema,
        ).push(tools.last().schema));
    }
}

/// A new registry holds these tools in this order: `read_file`,
/// `write_file`, `list_directory`, `search_files` and `shell_command`, enabled,
/// then `get_env`, `computer_screenshot`, `computer_click` and
/// `computer_type`, disabled.  The computer-use tools are available on Windows
/// only, the others everywhere, and each tool makes the calls its name says.
pub proof fn lemma_default_tools_listed(on_windows: bool)
    ensures
        default_tools(on_windows).len() == 9,
        default_tools(on_windows)[0].name == "read_file"@,
        default_tools(on_windows)[0].kind == ToolKind::ReadFile,
        default_tools(on_windows)[1].name == "write_file"@,
        default_tools(on_windows)[1].kind == ToolKind::WriteFile,
        default_tools(on_windows)[2].name == "list_directory"@,
        default_tools(on_windows)[2].kind == ToolKind::ListDirectory,
        default_tools(on_windows)[3].name == "search_files"@,
        default_tools(on_windows)[3].kind == ToolKind::SearchFiles,
        default_tools(on_windows)[4].name == "shell_command"@,
        default_tools(on_windows)[4].kind == ToolKind::Shell,
        default_tools(on_windows)[5].name == "get_env"@,
        default_tools(on_windows)[5].kind == ToolKind::GetEnv,
        default_tools(on_windows)[6].name == "computer_screenshot"@,
        default_tools(on_windows)[6].kind == ToolKind::ComputerScreenshot,
        default_tools(on_windows)[7].name == "computer_click"@,
        default_tools(on_windows)[7].kind == ToolKind::ComputerClick,
        default_tools(on_windows)[8].name == "computer_type"@,
        default_tools(on_windows)[8].kind == ToolKind::ComputerType,
        forall|i: int| 0 <= i < 9 ==> (#[trigger] default_tools(on_windows)[i]).enabled == (i < 5),
        forall|i: int| 0 <= i < 9 ==> (#[trigger] default_tools(on_windows)[i]).available == (i < 6
            || on_windows),
{
    let t = default_tools(on_windows);
    assert forall|i: int| 0 <= i < 9 implies (#[trigger] t[i]).enabled == (i < 5) && t[i].available == (
    i < 6 || on_windows) by {
        if i == 0 {
        } else if i == 1 {
        } else if i == 2 {
        } else if i == 3 {
        } else if i == 4 {
        } else if i == 5 {
        } else if i == 6 {
        } else if i == 7 {
        } else {
        }
    }
}

} // verus!
