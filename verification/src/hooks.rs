//! Hook commands that agents run, and the hook configurations that herdr
//! owns outright (Grok's config file and the Antigravity CLI block).
use vstd::prelude::*;
use crate::json::{
    jarray1, jobject1, jstr, members_view, push_member, Json, JsonView,
};
use crate::names::{
    antigravity_cli_hook_events, antigravity_cli_hook_events_spec, pairs_view,
    ANTIGRAVITY_CLI_HOOK_TIMEOUT_SEC, GROK_HOOK_TIMEOUT_SEC,
};
use crate::text::{chars_of, push_char};

verus! {

// ---------------------------------------------------------------------------
// Shell quoting and commands
// ---------------------------------------------------------------------------

/// Each `'` of `s` written as `'\''`.
pub open spec fn quote_body(s: Seq<char>) -> Seq<char>
    decreases s.len(),
{
    if s.len() == 0 {
        seq![]
    } else if s.last() == '\'' {
        quote_body(s.drop_last()) + seq!['\'', '\\', '\'', '\'']
    } else {
        quote_body(s.drop_last()) + seq![s.last()]
    }
}

/// `s` in single quotes, for a POSIX shell.
pub open spec fn shell_single_quote_spec(s: Seq<char>) -> Seq<char> {
    seq!['\''] + quote_body(s) + seq!['\'']
}

/// Quotes `s` as one POSIX shell word.
pub fn shell_single_quote(s: &str) -> (r: String)
    ensures
        r@ == shell_single_quote_spec(s@),
{
    let v = chars_of(s);
    let mut out = String::new();
    push_char(&mut out, '\'');
    let mut i: usize = 0;
    while i < v.len()
        invariant
            i <= v.len(),
            v@ == s@,
            out@ == seq!['\''] + quote_body(s@.take(i as int)),
        decreases v.len() - i,
    {
        proof {
            assert(s@.take(i + 1).drop_last() =~= s@.take(i as int));
        }
        if v[i] == '\'' {
            push_char(&mut out, '\'');
            push_char(&mut out, '\\');
            push_char(&mut out, '\'');
            push_char(&mut out, '\'');
        } else {
            push_char(&mut out, v[i]);
        }
        assert(out@ =~= seq!['\''] + quote_body(s@.take(i + 1)));
        i = i + 1;
    }
    assert(s@.take(v.len() as int) =~= s@);
    push_char(&mut out, '\'');
    out
}

/// The quoted hook script, then the action after a space if there is one.
pub open spec fn hook_command_spec(hook_path: Seq<char>, action: Option<Seq<char>>) -> Seq<char> {
    match action {
        Some(a) => shell_single_quote_spec(hook_path) + seq![' '] + a,
        None => shell_single_quote_spec(hook_path),
    }
}

/// The command that runs a hook script, reporting `action` when given.
pub fn hook_command(hook_path: &str, action: Option<&str>) -> (r: String)
    ensures
        r@ == hook_command_spec(
            hook_path@,
            match action {
                Some(a) => Some(a@),
                None => None,
            },
        ),
{
    let mut s = shell_single_quote(hook_path);
    match action {
        Some(a) => {
            push_char(&mut s, ' ');
            s.append(a);
        },
        None => {},
    }
    s
}

/// The command Mastra Code runs for one hook.
pub fn mastracode_hook_command(hook_path: &str, action: &str) -> (r: String)
    ensures
        r@ == hook_command_spec(hook_path@, Some(action@)),
{
    hook_command(hook_path, Some(action))
}

/// The command Antigravity CLI runs for one hook.
pub fn antigravity_cli_hook_command(hook_path: &str, action: &str) -> (r: String)
    ensures
        r@ == hook_command_spec(hook_path@, Some(action@)),
{
    hook_command(hook_path, Some(action))
}

/// `sh {quoted hook script} session`.
pub open spec fn grok_hook_command_spec(hook_path: Seq<char>) -> Seq<char> {
    seq!['s', 'h', ' '] + shell_single_quote_spec(hook_path) + seq![
        ' ',
        's',
        'e',
        's',
        's',
        'i',
        'o',
        'n',
    ]
}

/// The command Grok runs at session start. Installation and status share it
/// so that any config drift is reported as outdated.
pub fn grok_hook_command(hook_path: &str) -> (r: String)
    ensures
        r@ == grok_hook_command_spec(hook_path@),
{
    let mut s = "sh ".to_owned();
    proof {
        reveal_strlit("sh ");
    }
    let quoted = shell_single_quote(hook_path);
    s.append(quoted.as_str());
    s.append(" session");
    proof {
        reveal_strlit(" session");
    }
    assert(s@ =~= grok_hook_command_spec(hook_path@));
    s
}

// ---------------------------------------------------------------------------
// Hook configurations
// ---------------------------------------------------------------------------

/// `{"type": "command", "command": command, "timeout": timeout}`.
pub open spec fn command_handler_spec(command: Seq<char>, timeout: u64) -> JsonView {
    JsonView::Object(
        seq![
            ("type"@, JsonView::Str("command"@)),
            ("command"@, JsonView::Str(command)),
            ("timeout"@, JsonView::UInt(timeout)),
        ],
    )
}

/// A command handler.
pub fn command_handler(command: String, timeout: u64) -> (j: Json)
    ensures
        j@ == command_handler_spec(command@, timeout),
{
    let ghost c = command@;
    let mut members: Vec<(String, Json)> = Vec::new();
    assert(members_view(members@) =~= Seq::<(Seq<char>, JsonView)>::empty());
    push_member(&mut members, "type", jstr("command"));
    push_member(&mut members, "command", Json::Str(command));
    push_member(&mut members, "timeout", Json::UInt(timeout));
    assert(members_view(members@) =~= seq![
        ("type"@, JsonView::Str("command"@)),
        ("command"@, JsonView::Str(c)),
        ("timeout"@, JsonView::UInt(timeout)),
    ]);
    Json::Object(members)
}

/// The complete Herdr-owned Grok hook config.
pub open spec fn grok_hook_config_spec(hook_path: Seq<char>) -> JsonView {
    JsonView::Object(
        seq![
            (
                "hooks"@,
                JsonView::Object(
                    seq![
                        (
                            "SessionStart"@,
                            JsonView::Array(
                                seq![
                                    JsonView::Object(
                                        seq![
                                            (
                                                "hooks"@,
                                                JsonView::Array(
                                                    seq![
                                                        command_handler_spec(
                                                            grok_hook_command_spec(hook_path),
                                                            GROK_HOOK_TIMEOUT_SEC,
                                                        ),
                                                    ],
                                                ),
                                            ),
                                        ],
                                    ),
                                ],
                            ),
                        ),
                    ],
                ),
            ),
        ],
    )
}

/// The Grok hook config herdr writes next to the hook script.
pub fn grok_hook_config(hook_path: &str) -> (j: Json)
    ensures
        j@ == grok_hook_config_spec(hook_path@),
{
    let handler = command_handler(grok_hook_command(hook_path), GROK_HOOK_TIMEOUT_SEC);
    let group = jobject1("hooks", jarray1(handler));
    let events = jobject1("SessionStart", jarray1(group));
    jobject1("hooks", events)
}

/// The handler list of one Antigravity CLI event.
pub open spec fn antigravity_cli_handlers_spec(hook_path: Seq<char>, action: Seq<char>) -> JsonView {
    JsonView::Array(
        seq![
            command_handler_spec(
                hook_command_spec(hook_path, Some(action)),
                ANTIGRAVITY_CLI_HOOK_TIMEOUT_SEC,
            ),
        ],
    )
}

/// One member per Antigravity CLI hook event, in order.
pub open spec fn antigravity_cli_block_spec(hook_path: Seq<char>) -> JsonView {
    JsonView::Object(
        antigravity_cli_hook_events_spec().map_values(
            |e: (Seq<char>, Seq<char>)| (e.0, antigravity_cli_handlers_spec(hook_path, e.1)),
        ),
    )
}

/// Builds the Herdr-owned `hooks.json` block for Antigravity CLI. Every
/// event Herdr registers takes a flat handler list.
pub fn antigravity_cli_hook_block(hook_path: &str) -> (j: Json)
    ensures
        j@ == antigravity_cli_block_spec(hook_path@),
{
    let events = antigravity_cli_hook_events();
    let ghost evs = pairs_view(events@);
    let ghost f = |e: (Seq<char>, Seq<char>)| (e.0, antigravity_cli_handlers_spec(hook_path@, e.1));
    let mut block: Vec<(String, Json)> = Vec::new();
    assert(members_view(block@) =~= Seq::<(Seq<char>, JsonView)>::empty());
    let mut i: usize = 0;
    while i < events.len()
        invariant
            i <= events.len(),
            evs == pairs_view(events@),
            evs == antigravity_cli_hook_events_spec(),
            f == (|e: (Seq<char>, Seq<char>)| (e.0, antigravity_cli_handlers_spec(hook_path@, e.1))),
            members_view(block@) == evs.take(i as int).map_values(f),
        decreases events.len() - i,
    {
        let (event, action) = events[i];
        assert(evs[i as int] == (event@, action@));
        let handler = command_handler(
            antigravity_cli_hook_command(hook_path, action),
            ANTIGRAVITY_CLI_HOOK_TIMEOUT_SEC,
        );
        push_member(&mut block, event, jarray1(handler));
        assert(evs.take(i + 1).map_values(f) =~= evs.take(i as int).map_values(f).push(
            f(evs[i as int]),
        ));
        i = i + 1;
    }
    assert(evs.take(events.len() as int) =~= evs);
    Json::Object(block)
}

} // verus!
