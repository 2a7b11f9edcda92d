//! The Trae integration: the plugin's identity, the hook commands it runs,
//! and the hook trust tables that herdr keeps in `traecli.toml`.
use vstd::prelude::*;
use crate::digest::{hex_lower, push_hex_lower, sha256_digest, sha256_spec};
use crate::error::{ErrorKind, InstallError};
use crate::hooks::{command_handler, command_handler_spec};
use crate::json::{
    jarray1, jobject1, json_compact, json_compact_text, jstr, members_view, push_member, Json,
    JsonView,
};
use crate::names::{
    pairs_view, trae_hook_events, trae_hook_events_spec, TRAE_HOOK_INSTALL_NAME,
    TRAE_HOOK_TIMEOUT_SEC, TRAE_INTEGRATION_VERSION, TRAE_PLUGIN_MARKETPLACE, TRAE_PLUGIN_NAME,
};
use crate::text::{
    chars_of, decimal, decimal_spec, join_lines, join_with_newlines, lines_of, push_char,
    split_lines, starts_with, trim, trim_end, trim_end_spec, trim_spec, trim_start,
    trim_start_spec,
};

verus! {

// ---------------------------------------------------------------------------
// Identity and commands
// ---------------------------------------------------------------------------

/// `{TRAE_PLUGIN_NAME}@{TRAE_PLUGIN_MARKETPLACE}`.
pub open spec fn plugin_id_spec() -> Seq<char> {
    TRAE_PLUGIN_NAME@ + "@"@ + TRAE_PLUGIN_MARKETPLACE@
}

/// The id under which Trae knows the herdr plugin.
pub fn trae_plugin_id() -> (r: String)
    ensures
        r@ == plugin_id_spec(),
{
    let mut s = TRAE_PLUGIN_NAME.to_owned();
    s.append("@");
    s.append(TRAE_PLUGIN_MARKETPLACE);
    s
}

/// `sh "__PLUGIN_DIR__/{TRAE_HOOK_INSTALL_NAME}" {action}`.
pub open spec fn plugin_hook_command_spec(action: Seq<char>) -> Seq<char> {
    "sh \"__PLUGIN_DIR__/"@ + TRAE_HOOK_INSTALL_NAME@ + "\" "@ + action
}

/// The command Trae runs for one hook. `__PLUGIN_DIR__` is expanded by Trae
/// to the installed plugin root.
pub fn trae_plugin_hook_command(action: &str) -> (r: String)
    ensures
        r@ == plugin_hook_command_spec(action@),
{
    let mut s = "sh \"__PLUGIN_DIR__/".to_owned();
    s.append(TRAE_HOOK_INSTALL_NAME);
    s.append("\" ");
    s.append(action);
    s
}

pub open spec fn is_ascii_upper(c: char) -> bool {
    'A' <= c && c <= 'Z'
}

/// `char::to_ascii_lowercase` on an upper-case ASCII letter.
pub open spec fn ascii_lower(c: char) -> char {
    ((c as u8) + 32) as char
}

/// What one character of an event name becomes in snake case; `later` says
/// that it is not the first character.
pub open spec fn snake_piece(c: char, later: bool) -> Seq<char> {
    if is_ascii_upper(c) {
        if later {
            seq!['_', ascii_lower(c)]
        } else {
            seq![ascii_lower(c)]
        }
    } else {
        seq![c]
    }
}

/// Every upper-case ASCII letter lower-cased, with a `_` before it unless it
/// opens the name: `PostToolUseFailure` gives `post_tool_use_failure`.
pub open spec fn snake_case_spec(s: Seq<char>) -> Seq<char>
    decreases s.len(),
{
    if s.len() == 0 {
        seq![]
    } else {
        snake_case_spec(s.drop_last()) + snake_piece(s.last(), s.len() > 1)
    }
}

/// `PostToolUseFailure` -> `post_tool_use_failure`, the event name Trae uses
/// in hook trust keys.
pub fn trae_event_snake_case(event: &str) -> (r: String)
    ensures
        r@ == snake_case_spec(event@),
{
    let v = chars_of(event);
    let mut snake = String::new();
    let mut i: usize = 0;
    while i < v.len()
        invariant
            i <= v.len(),
            v@ == event@,
            snake@ == snake_case_spec(event@.take(i as int)),
        decreases v.len() - i,
    {
        let ch = v[i];
        proof {
            assert(event@.take(i + 1).drop_last() =~= event@.take(i as int));
        }
        if 'A' <= ch && ch <= 'Z' {
            if i > 0 {
                push_char(&mut snake, '_');
            }
            push_char(&mut snake, ((ch as u8) + 32) as char);
        } else {
            push_char(&mut snake, ch);
        }
        assert(snake@ =~= snake_case_spec(event@.take(i + 1)));
        i = i + 1;
    }
    assert(event@.take(v.len() as int) =~= event@);
    snake
}

/// `{plugin id}:hooks.json:{snake-case event}:0:0`.
pub open spec fn trust_key_spec(event: Seq<char>) -> Seq<char> {
    plugin_id_spec() + ":hooks.json:"@ + snake_case_spec(event) + ":0:0"@
}

/// The key under which Trae records its trust in one herdr hook.
pub fn trae_trust_key(event: &str) -> (r: String)
    ensures
        r@ == trust_key_spec(event@),
{
    let mut s = trae_plugin_id();
    s.append(":hooks.json:");
    let snake = trae_event_snake_case(event);
    s.append(snake.as_str());
    s.append(":0:0");
    s
}

// ---------------------------------------------------------------------------
// Trusted hashes
// ---------------------------------------------------------------------------

/// The canonical identity of one hook: its event and its handler, members
/// in sorted order.
pub open spec fn trust_identity(event: Seq<char>, action: Seq<char>) -> JsonView {
    JsonView::Object(
        seq![
            ("event_name"@, JsonView::Str(snake_case_spec(event))),
            (
                "hooks"@,
                JsonView::Array(
                    seq![
                        JsonView::Object(
                            seq![
                                ("async"@, JsonView::Bool(false)),
                                ("command"@, JsonView::Str(plugin_hook_command_spec(action))),
                                ("timeout"@, JsonView::UInt(TRAE_HOOK_TIMEOUT_SEC)),
                                ("type"@, JsonView::Str("command"@)),
                            ],
                        ),
                    ],
                ),
            ),
        ],
    )
}

/// `sha256:` and the hex SHA-256 of the UTF-8 compact JSON of the identity.
pub open spec fn trusted_hash_spec(event: Seq<char>, action: Seq<char>) -> Seq<char> {
    "sha256:"@ + hex_lower(
        sha256_spec(vstd::utf8::encode_utf8(json_compact_text(trust_identity(event, action)))),
    )
}

/// Trae trusts a hook by the SHA-256 of a canonical (sorted-key, compact)
/// JSON identity of its event and handler.
pub fn trae_trusted_hash(event: &str, action: &str) -> (r: String)
    ensures
        r@ == trusted_hash_spec(event@, action@),
{
    let mut handler: Vec<(String, Json)> = Vec::new();
    assert(members_view(handler@) =~= Seq::<(Seq<char>, JsonView)>::empty());
    push_member(&mut handler, "async", Json::Bool(false));
    push_member(&mut handler, "command", Json::Str(trae_plugin_hook_command(action)));
    push_member(&mut handler, "timeout", Json::UInt(TRAE_HOOK_TIMEOUT_SEC));
    push_member(&mut handler, "type", jstr("command"));
    let ghost handler_view = seq![
        ("async"@, JsonView::Bool(false)),
        ("command"@, JsonView::Str(plugin_hook_command_spec(action@))),
        ("timeout"@, JsonView::UInt(TRAE_HOOK_TIMEOUT_SEC)),
        ("type"@, JsonView::Str("command"@)),
    ];
    assert(members_view(handler@) =~= handler_view);
    let mut identity: Vec<(String, Json)> = Vec::new();
    assert(members_view(identity@) =~= Seq::<(Seq<char>, JsonView)>::empty());
    push_member(&mut identity, "event_name", Json::Str(trae_event_snake_case(event)));
    push_member(&mut identity, "hooks", jarray1(Json::Object(handler)));
    assert(members_view(identity@) =~= seq![
        ("event_name"@, JsonView::Str(snake_case_spec(event@))),
        ("hooks"@, JsonView::Array(seq![JsonView::Object(handler_view)])),
    ]);
    let identity = Json::Object(identity);
    assert(identity@ == trust_identity(event@, action@));
    let text = json_compact(&identity);
    let digest = sha256_digest(text.as_str().as_bytes());
    trusted_hash_text(digest.as_slice())
}

/// `sha256:` and the lower-case hex spelling of a digest.
pub fn trusted_hash_text(digest: &[u8]) -> (r: String)
    ensures
        r@ == "sha256:"@ + hex_lower(digest@),
{
    let mut out = "sha256:".to_owned();
    push_hex_lower(&mut out, digest);
    out
}

// ---------------------------------------------------------------------------
// Trust tables in traecli.toml
// ---------------------------------------------------------------------------

/// `[hooks.state."{plugin id}:`, how every herdr trust table header starts.
pub open spec fn trust_header_prefix() -> Seq<char> {
    "[hooks.state.\""@ + plugin_id_spec() + ":"@
}

/// The line, trimmed, opens a herdr hook trust table.
pub open spec fn is_trust_header_spec(line: Seq<char>) -> bool {
    trust_header_prefix().is_prefix_of(trim_spec(line))
}

/// The line, without leading whitespace, starts with `[`: it opens a table.
pub open spec fn is_table_line(line: Seq<char>) -> bool {
    let t = trim_start_spec(line);
    t.len() > 0 && t[0] == '['
}

/// Whether `line` opens a herdr hook trust table.
pub fn is_trae_trust_header(line: &str) -> (b: bool)
    ensures
        b == is_trust_header_spec(line@),
{
    let mut prefix = "[hooks.state.\"".to_owned();
    let id = trae_plugin_id();
    prefix.append(id.as_str());
    prefix.append(":");
    starts_with(trim(line), prefix.as_str())
}

fn is_table_line_exec(line: &str) -> (b: bool)
    ensures
        b == is_table_line(line@),
{
    let t = trim_start(line);
    t.unicode_len() > 0 && t.get_char(0) == '['
}

/// The lines that survive removal of the trust tables, reading from the
/// top; `skipping` says that a trust table is open. A trust table runs
/// from its header up to the next line that opens a table.
pub open spec fn keep_lines(ls: Seq<Seq<char>>, skipping: bool) -> Seq<Seq<char>>
    decreases ls.len(),
{
    if ls.len() == 0 {
        seq![]
    } else if is_trust_header_spec(ls[0]) {
        keep_lines(ls.drop_first(), true)
    } else if skipping && !is_table_line(ls[0]) {
        keep_lines(ls.drop_first(), true)
    } else {
        seq![ls[0]] + keep_lines(ls.drop_first(), false)
    }
}

/// The kept lines joined by newlines, trailing whitespace removed, and one
/// final newline unless nothing is left.
pub open spec fn without_spec(config: Seq<char>) -> Seq<char> {
    let body = trim_end_spec(join_lines(keep_lines(lines_of(config), false)));
    if body.len() == 0 {
        seq![]
    } else {
        body + "\n"@
    }
}

/// Removes every herdr hook trust table, leaving the rest of the file as-is.
pub fn without_trae_trust_entries(config: &str) -> (r: String)
    ensures
        r@ == without_spec(config@),
{
    let lines = split_lines(config);
    let ghost ls = lines_of(config@);
    let mut kept: Vec<String> = Vec::new();
    let mut skipping = false;
    let mut i: usize = 0;
    assert(ls.skip(0) =~= ls);
    while i < lines.len()
        invariant
            i <= lines.len() == ls.len(),
            ls == lines_of(config@),
            forall|j: int| 0 <= j < lines.len() ==> #[trigger] lines[j]@ == ls[j],
            keep_lines(ls, false) == kept@.map_values(|l: String| l@) + keep_lines(
                ls.skip(i as int),
                skipping,
            ),
        decreases lines.len() - i,
    {
        let line = lines[i].as_str();
        proof {
            assert(ls.skip(i as int).drop_first() =~= ls.skip(i + 1));
            assert(ls.skip(i as int)[0] == line@);
        }
        if is_trae_trust_header(line) {
            skipping = true;
        } else {
            if skipping && is_table_line_exec(line) {
                skipping = false;
            }
            if !skipping {
                let ghost before = kept@;
                kept.push(line.to_owned());
                assert(kept@.map_values(|l: String| l@) =~= before.map_values(|l: String| l@).push(
                    line@,
                ));
            }
        }
        i = i + 1;
    }
    assert(kept@.map_values(|l: String| l@) =~= keep_lines(ls, false));
    let joined = join_with_newlines(&kept);
    let body = trim_end(joined.as_str());
    if body.is_empty() {
        String::new()
    } else {
        let mut out = body.to_owned();
        out.append("\n");
        out
    }
}

/// One trust table: its header and the trusted hash of one hook.
pub open spec fn trust_entry_spec(event: Seq<char>, action: Seq<char>) -> Seq<char> {
    "[hooks.state.\""@ + trust_key_spec(event) + "\"]\ntrusted_hash = \""@ + trusted_hash_spec(
        event,
        action,
    ) + "\"\n"@
}

/// Appends the trust tables of `events` to `out`, a blank line before each
/// one unless `out` is empty.
pub open spec fn add_entries(out: Seq<char>, events: Seq<(Seq<char>, Seq<char>)>) -> Seq<char>
    decreases events.len(),
{
    if events.len() == 0 {
        out
    } else {
        let sep = if out.len() == 0 {
            out
        } else {
            out + "\n"@
        };
        add_entries(sep + trust_entry_spec(events[0].0, events[0].1), events.drop_first())
    }
}

/// The configuration without herdr trust tables, then one table per Trae
/// hook event.
pub open spec fn with_spec(config: Seq<char>) -> Seq<char> {
    add_entries(without_spec(config), trae_hook_events_spec())
}

fn trae_trust_entry(event: &str, action: &str) -> (r: String)
    ensures
        r@ == trust_entry_spec(event@, action@),
{
    let mut s = "[hooks.state.\"".to_owned();
    let key = trae_trust_key(event);
    s.append(key.as_str());
    s.append("\"]\ntrusted_hash = \"");
    let hash = trae_trusted_hash(event, action);
    s.append(hash.as_str());
    s.append("\"\n");
    s
}

/// Replaces the herdr trust tables of `config` with one fresh table per Trae
/// hook event.
pub fn with_trae_trust_entries(config: &str) -> (r: String)
    ensures
        r@ == with_spec(config@),
{
    let mut out = without_trae_trust_entries(config);
    let events = trae_hook_events();
    let ghost evs = pairs_view(events@);
    let mut i: usize = 0;
    assert(evs.skip(0) =~= evs);
    while i < events.len()
        invariant
            i <= events.len(),
            evs == pairs_view(events@),
            evs == trae_hook_events_spec(),
            with_spec(config@) == add_entries(out@, evs.skip(i as int)),
        decreases events.len() - i,
    {
        let (event, action) = events[i];
        proof {
            assert(evs.skip(i as int).drop_first() =~= evs.skip(i + 1));
            assert(evs.skip(i as int)[0] == (event@, action@));
        }
        if !out.as_str().is_empty() {
            out.append("\n");
        }
        let entry = trae_trust_entry(event, action);
        out.append(entry.as_str());
        i = i + 1;
    }
    assert(evs.skip(events.len() as int) =~= Seq::<(Seq<char>, Seq<char>)>::empty());
    out
}

// ---------------------------------------------------------------------------
// The plugin's files
// ---------------------------------------------------------------------------

/// `[{"hooks": [handler]}]` for one Trae hook event.
pub open spec fn trae_event_groups_spec(action: Seq<char>) -> JsonView {
    JsonView::Array(
        seq![
            JsonView::Object(
                seq![
                    (
                        "hooks"@,
                        JsonView::Array(
                            seq![
                                command_handler_spec(
                                    plugin_hook_command_spec(action),
                                    TRAE_HOOK_TIMEOUT_SEC,
                                ),
                            ],
                        ),
                    ),
                ],
            ),
        ],
    )
}

/// The plugin's `hooks.json`: one member per Trae hook event.
pub open spec fn trae_plugin_hooks_spec() -> JsonView {
    JsonView::Object(
        seq![
            (
                "hooks"@,
                JsonView::Object(
                    trae_hook_events_spec().map_values(
                        |e: (Seq<char>, Seq<char>)| (e.0, trae_event_groups_spec(e.1)),
                    ),
                ),
            ),
        ],
    )
}

/// The hooks file shipped in the herdr Trae plugin.
pub fn trae_plugin_hooks() -> (j: Json)
    ensures
        j@ == trae_plugin_hooks_spec(),
{
    let events = trae_hook_events();
    let ghost evs = pairs_view(events@);
    let ghost f = |e: (Seq<char>, Seq<char>)| (e.0, trae_event_groups_spec(e.1));
    let mut hooks: Vec<(String, Json)> = Vec::new();
    assert(members_view(hooks@) =~= Seq::<(Seq<char>, JsonView)>::empty());
    let mut i: usize = 0;
    while i < events.len()
        invariant
            i <= events.len(),
            evs == pairs_view(events@),
            evs == trae_hook_events_spec(),
            f == (|e: (Seq<char>, Seq<char>)| (e.0, trae_event_groups_spec(e.1))),
            members_view(hooks@) == evs.take(i as int).map_values(f),
        decreases events.len() - i,
    {
        let (event, action) = events[i];
        assert(evs[i as int] == (event@, action@));
        let handler = command_handler(trae_plugin_hook_command(action), TRAE_HOOK_TIMEOUT_SEC);
        let groups = jarray1(jobject1("hooks", jarray1(handler)));
        push_member(&mut hooks, event, groups);
        assert(evs.take(i + 1).map_values(f) =~= evs.take(i as int).map_values(f).push(
            f(evs[i as int]),
        ));
        i = i + 1;
    }
    assert(evs.take(events.len() as int) =~= evs);
    jobject1("hooks", Json::Object(hooks))
}

/// The plugin's `.codex-plugin/plugin.json`.
pub open spec fn trae_plugin_manifest_spec() -> JsonView {
    JsonView::Object(
        seq![
            ("name"@, JsonView::Str(TRAE_PLUGIN_NAME@)),
            ("version"@, JsonView::Str(decimal_spec(TRAE_INTEGRATION_VERSION as nat) + ".0.0"@)),
            ("description"@, JsonView::Str("Report Trae agent state to herdr"@)),
            ("hooks"@, JsonView::Str("./hooks.json"@)),
            (
                "interface"@,
                JsonView::Object(
                    seq![
                        ("displayName"@, JsonView::Str("herdr"@)),
                        ("shortDescription"@, JsonView::Str("Report Trae agent state to herdr"@)),
                        ("category"@, JsonView::Str("Developer Tools"@)),
                    ],
                ),
            ),
        ],
    )
}

/// The manifest of the herdr Trae plugin.
pub fn trae_plugin_manifest() -> (j: Json)
    ensures
        j@ == trae_plugin_manifest_spec(),
{
    let mut interface: Vec<(String, Json)> = Vec::new();
    assert(members_view(interface@) =~= Seq::<(Seq<char>, JsonView)>::empty());
    push_member(&mut interface, "displayName", jstr("herdr"));
    push_member(&mut interface, "shortDescription", jstr("Report Trae agent state to herdr"));
    push_member(&mut interface, "category", jstr("Developer Tools"));
    let ghost interface_view = members_view(interface@);
    assert(interface_view =~= seq![
        ("displayName"@, JsonView::Str("herdr"@)),
        ("shortDescription"@, JsonView::Str("Report Trae agent state to herdr"@)),
        ("category"@, JsonView::Str("Developer Tools"@)),
    ]);
    let mut version = decimal(TRAE_INTEGRATION_VERSION);
    version.append(".0.0");
    let mut manifest: Vec<(String, Json)> = Vec::new();
    assert(members_view(manifest@) =~= Seq::<(Seq<char>, JsonView)>::empty());
    push_member(&mut manifest, "name", jstr(TRAE_PLUGIN_NAME));
    push_member(&mut manifest, "version", Json::Str(version));
    push_member(&mut manifest, "description", jstr("Report Trae agent state to herdr"));
    push_member(&mut manifest, "hooks", jstr("./hooks.json"));
    push_member(&mut manifest, "interface", Json::Object(interface));
    assert(members_view(manifest@) =~= seq![
        ("name"@, JsonView::Str(TRAE_PLUGIN_NAME@)),
        ("version"@, JsonView::Str(decimal_spec(TRAE_INTEGRATION_VERSION as nat) + ".0.0"@)),
        ("description"@, JsonView::Str("Report Trae agent state to herdr"@)),
        ("hooks"@, JsonView::Str("./hooks.json"@)),
        ("interface"@, JsonView::Object(interface_view)),
    ]);
    Json::Object(manifest)
}

// ---------------------------------------------------------------------------
// traecli.toml
// ---------------------------------------------------------------------------

/// What `toml::from_str::<toml::Value>` gives for a text: `None` when it
/// parses, else the text of its error.
pub uninterp spec fn toml_check(text: Seq<char>) -> Option<Seq<char>>;

/// `toml::from_str::<toml::Value>`. The contract names the outcome
/// `toml_check(text@)`: `None` on success, the error's `Display` on failure;
/// it claims that the outcome depends on the text alone.
#[verifier::external_body]
fn toml_parse_error(text: &str) -> (r: Option<String>)
    ensures
        match r {
            None => toml_check(text@) is None,
            Some(m) => toml_check(text@) == Some(m@),
        },
{
    match toml::from_str::<toml::Value>(text) {
        Ok(_) => None,
        Err(err) => Some(err.to_string()),
    }
}

/// Decides what to write to `traecli.toml`, given the new configuration and
/// what parsing it as TOML gave (`parse_error`): an error when it is not
/// TOML, nothing when it equals `existing`, else the new configuration.
pub fn trae_config_decision(
    existing: &str,
    new_config: String,
    parse_error: Option<String>,
    config_path: &str,
) -> (r: Result<Option<String>, InstallError>)
    ensures
        match parse_error {
            Some(m) => r matches Err(e) && e.kind == ErrorKind::Other && e.message@
                == "refusing to write "@ + config_path@ + ": result would not be valid TOML: "@
                + m@,
            None => if new_config@ == existing@ {
                r matches Ok(None)
            } else {
                r matches Ok(Some(c)) && c@ == new_config@
            },
        },
{
    match parse_error {
        Some(m) => {
            let mut msg = "refusing to write ".to_owned();
            msg.append(config_path);
            msg.append(": result would not be valid TOML: ");
            msg.append(m.as_str());
            Err(InstallError::other(msg))
        },
        None => {
            let existing_owned = existing.to_owned();
            if new_config == existing_owned {
                Ok(None)
            } else {
                Ok(Some(new_config))
            }
        },
    }
}

/// The new `traecli.toml`: `hooks_config` (the existing configuration with
/// hooks enabled) with fresh herdr trust tables, refused unless it is TOML,
/// and nothing to write when it equals `existing`.
pub fn trae_config_update(existing: &str, hooks_config: &str, config_path: &str) -> (r: Result<
    Option<String>,
    InstallError,
>)
    ensures
        match toml_check(with_spec(hooks_config@)) {
            Some(m) => r matches Err(e) && e.kind == ErrorKind::Other && e.message@
                == "refusing to write "@ + config_path@ + ": result would not be valid TOML: "@
                + m,
            None => if with_spec(hooks_config@) == existing@ {
                r matches Ok(None)
            } else {
                r matches Ok(Some(c)) && c@ == with_spec(hooks_config@)
            },
        },
{
    let new_config = with_trae_trust_entries(hooks_config);
    let parse_error = toml_parse_error(new_config.as_str());
    trae_config_decision(existing, new_config, parse_error, config_path)
}

/// `[plugins."{plugin id}"]`, the table that records the installed plugin.
pub open spec fn plugin_table_spec() -> Seq<char> {
    "[plugins.\""@ + plugin_id_spec() + "\"]"@
}

/// Some line of the configuration, trimmed, is the plugin's table header.
pub open spec fn plugin_registered_spec(config: Seq<char>) -> bool {
    exists|i: int|
        0 <= i < lines_of(config).len() && trim_spec(#[trigger] lines_of(config)[i])
            == plugin_table_spec()
}

/// Whether `traecli.toml` records the herdr plugin as installed.
pub fn trae_plugin_registered(config: &str) -> (b: bool)
    ensures
        b == plugin_registered_spec(config@),
{
    let mut table = "[plugins.\"".to_owned();
    let id = trae_plugin_id();
    table.append(id.as_str());
    table.append("\"]");
    let lines = split_lines(config);
    let mut i: usize = 0;
    while i < lines.len()
        invariant
            i <= lines.len() == lines_of(config@).len(),
            table@ == plugin_table_spec(),
            forall|j: int| 0 <= j < lines.len() ==> #[trigger] lines[j]@ == lines_of(config@)[j],
            forall|j: int| 0 <= j < i ==> trim_spec(#[trigger] lines_of(config@)[j])
                != plugin_table_spec(),
        decreases lines.len() - i,
    {
        let t = trim(lines[i].as_str());
        let t_owned = t.to_owned();
        if t_owned == table {
            assert(trim_spec(lines_of(config@)[i as int]) == plugin_table_spec());
            return true;
        }
        i = i + 1;
    }
    false
}

/// The herdr trust tables removed from `traecli.toml`, or `None` when
/// there were none to remove.
pub fn trae_config_without_trust(existing: &str) -> (r: Option<String>)
    ensures
        if without_spec(existing@) == existing@ {
            r is None
        } else {
            r matches Some(c) && c@ == without_spec(existing@)
        },
{
    let stripped = without_trae_trust_entries(existing);
    let existing_owned = existing.to_owned();
    if stripped == existing_owned {
        None
    } else {
        Some(stripped)
    }
}

} // verus!
