//! Extraction from event command lists and move routes.
//!
//! An event command list is walked in order. Some commands carry text of
//! their own (a label, an actor's new name, the choices of a menu); "show
//! text", "comment" and "script" commands continue over the commands that
//! follow them with the matching continuation code, whose lines are joined
//! with single spaces; a conditional branch on a script, a script command and
//! the script commands of a move route hand Ruby source on.

use vstd::prelude::*;

use crate::found::{
    lemma_concat_map_items, GameStringView,
    all_located_under, concat_map, lemma_concat_map_prefix, lemma_concat_map_take,
    lemma_located_concat, lemma_located_concat_map, lemma_prefix_all_concat,
    lemma_starts_with_append, lemma_starts_with_trans, location_of, prefix_all,
    process_script_text, push_text, script_item, starts_with, text_item, views, Extracted,
    ExtractedView,
};
use crate::model::{EventCommand, MoveCommand, MoveRoute, ParameterType};
use crate::text::{decimal, push_decimal};

verus! {

/// The text that a parameter holds, if it holds text.
pub open spec fn param_string(p: ParameterType) -> Option<Seq<char>> {
    match p {
        ParameterType::String(t) => Some(t@),
        _ => None,
    }
}

/// The text of the parameter at `k`, if there is one and it is text.
pub open spec fn string_param(ps: Seq<ParameterType>, k: int) -> Option<Seq<char>> {
    if 0 <= k < ps.len() {
        param_string(ps[k])
    } else {
        None
    }
}

/// The integer of the parameter at `k`, if there is one and it is an integer.
pub open spec fn int_param(ps: Seq<ParameterType>, k: int) -> Option<i32> {
    if 0 <= k < ps.len() {
        match ps[k] {
            ParameterType::Integer(v) => Some(v),
            _ => None,
        }
    } else {
        None
    }
}

/// The move route of the parameter at `k`, if there is one and it is a move route.
pub open spec fn route_param(ps: Seq<ParameterType>, k: int) -> Option<MoveRoute> {
    if 0 <= k < ps.len() {
        match ps[k] {
            ParameterType::MoveRoute(r) => Some(r),
            _ => None,
        }
    } else {
        None
    }
}

/// The elements of the parameter at `k`, if there is one and it is an array.
pub open spec fn array_param(ps: Seq<ParameterType>, k: int) -> Option<Seq<ParameterType>> {
    if 0 <= k < ps.len() {
        match ps[k] {
            ParameterType::Array(a) => Some(a@),
            _ => None,
        }
    } else {
        None
    }
}

impl ParameterType {
    /// The text of the parameter, if it is text.
    pub fn as_str(&self) -> (r: Option<&str>)
        ensures
            r is Some <==> param_string(*self) is Some,
            r matches Some(t) ==> param_string(*self) == Some(t@),
    {
        match self {
            ParameterType::String(t) => Some(t.as_str()),
            _ => None,
        }
    }
}

/// The text of the parameter at `index`, if there is one and it is text.
pub fn string_parameter_at(parameters: &[ParameterType], index: usize) -> (r: Option<&str>)
    ensures
        r is Some <==> string_param(parameters@, index as int) is Some,
        r matches Some(t) ==> string_param(parameters@, index as int) == Some(t@),
{
    if index < parameters.len() {
        parameters[index].as_str()
    } else {
        None
    }
}

/// The integer of the parameter at `index`, if there is one and it is an integer.
pub fn int_parameter_at(parameters: &[ParameterType], index: usize) -> (r: Option<i32>)
    ensures
        r == int_param(parameters@, index as int),
{
    if index < parameters.len() {
        match &parameters[index] {
            ParameterType::Integer(v) => Some(*v),
            _ => None,
        }
    } else {
        None
    }
}

/// The move route of the parameter at `index`, if there is one and it is a move route.
pub fn route_parameter_at(parameters: &[ParameterType], index: usize) -> (r: Option<&MoveRoute>)
    ensures
        r is Some <==> route_param(parameters@, index as int) is Some,
        r matches Some(route) ==> route_param(parameters@, index as int) == Some(*route),
{
    if index < parameters.len() {
        match &parameters[index] {
            ParameterType::MoveRoute(route) => Some(route),
            _ => None,
        }
    } else {
        None
    }
}

/// The elements of the parameter at `index`, if there is one and it is an array.
pub fn array_parameter_at(parameters: &[ParameterType], index: usize) -> (r: Option<
    &[ParameterType],
>)
    ensures
        r is Some <==> array_param(parameters@, index as int) is Some,
        r matches Some(a) ==> array_param(parameters@, index as int) == Some(a@),
{
    if index < parameters.len() {
        match &parameters[index] {
            ParameterType::Array(a) => Some(a.as_slice()),
            _ => None,
        }
    } else {
        None
    }
}

// ---------------------------------------------------------------------------
// Move routes
// ---------------------------------------------------------------------------

/// The code of the move command that runs a script.
pub open spec fn is_script_move(c: MoveCommand) -> bool {
    c.code == 45
}

/// Every script move command of the route has its source as its first parameter.
pub open spec fn route_ok(route: MoveRoute) -> bool {
    forall|i: int|
        0 <= i < route.list@.len() && is_script_move(#[trigger] route.list@[i]) ==> string_param(
            route.list@[i].parameters@,
            0,
        ) is Some
}

/// The location of the script of the move command at `i`.
pub open spec fn move_location(context: Seq<char>, i: int) -> Seq<char> {
    context + ":movecmd:"@ + decimal(i as nat) + ":script"@
}

/// What the move command at `i` hands on.
pub open spec fn move_command_output(context: Seq<char>, i: int, c: MoveCommand) -> Seq<
    ExtractedView,
> {
    if is_script_move(c) {
        seq![script_item(move_location(context, i), string_param(c.parameters@, 0).unwrap())]
    } else {
        seq![]
    }
}

/// What a move route hands on: the source of each script move command, in order.
pub open spec fn route_output(route: MoveRoute, context: Seq<char>) -> Seq<ExtractedView> {
    concat_map(route.list@, |i: int, c: MoveCommand| move_command_output(context, i, c))
}

/// Hands on the script of each script command of a move route.
pub fn process_move_route(route: &MoveRoute, strings: &mut Vec<Extracted>, context: &str)
    requires
        route_ok(*route),
    ensures
        views(final(strings)@) == views(old(strings)@) + route_output(*route, context@),
{
    let ghost f = |i: int, c: MoveCommand| move_command_output(context@, i, c);
    let n = route.list.len();
    let mut i: usize = 0;
    while i < n
        invariant
            n == route.list@.len(),
            i <= n,
            route_ok(*route),
            f == (|i: int, c: MoveCommand| move_command_output(context@, i, c)),
            views(strings@) == views(old(strings)@) + concat_map(route.list@.take(i as int), f),
        decreases n - i,
    {
        let cmd = &route.list[i];
        proof {
            lemma_concat_map_take(route.list@, i as int, f);
        }
        if cmd.code == 45 {
            let text = string_parameter_at(cmd.parameters.as_slice(), 0).unwrap();
            let mut location = String::from_str(context);
            location.append(":movecmd:");
            push_decimal(&mut location, i as u64);
            location.append(":script");
            process_script_text(String::from_str(text), strings, location);
            assert(views(strings@) =~= views(old(strings)@) + concat_map(
                route.list@.take(i + 1),
                f,
            ));
        } else {
            assert(views(strings@) =~= views(old(strings)@) + concat_map(
                route.list@.take(i + 1),
                f,
            ));
        }
        i = i + 1;
    }
    assert(route.list@.take(n as int) =~= route.list@);
}

/// Whether each script move command of the route has its source.
pub fn route_is_well_formed(route: &MoveRoute) -> (b: bool)
    ensures
        b == route_ok(*route),
{
    let n = route.list.len();
    let mut i: usize = 0;
    while i < n
        invariant
            n == route.list@.len(),
            i <= n,
            forall|j: int|
                0 <= j < i && is_script_move(#[trigger] route.list@[j]) ==> string_param(
                    route.list@[j].parameters@,
                    0,
                ) is Some,
        decreases n - i,
    {
        let cmd = &route.list[i];
        if cmd.code == 45 && string_parameter_at(cmd.parameters.as_slice(), 0).is_none() {
            return false;
        }
        i = i + 1;
    }
    true
}


// ---------------------------------------------------------------------------
// Event command lists
// ---------------------------------------------------------------------------

/// The end of the run of commands with the given code that starts at `from`:
/// the first index at or after `from` whose command has another code, or the
/// length of the list.
pub open spec fn run_end(cmds: Seq<EventCommand>, from: int, code: u16) -> int
    decreases cmds.len() - from,
{
    if from < 0 || from >= cmds.len() || cmds[from].code != code {
        from
    } else {
        run_end(cmds, from + 1, code)
    }
}

pub proof fn lemma_run_end(cmds: Seq<EventCommand>, from: int, code: u16)
    requires
        0 <= from <= cmds.len(),
    ensures
        from <= run_end(cmds, from, code) <= cmds.len(),
        forall|j: int| from <= j < run_end(cmds, from, code) ==> #[trigger] cmds[j].code == code,
        run_end(cmds, from, code) < cmds.len() ==> cmds[run_end(cmds, from, code)].code != code,
    decreases cmds.len() - from,
{
    if from < cmds.len() && cmds[from].code == code {
        lemma_run_end(cmds, from + 1, code);
    }
}

/// The text of the first parameter of a command.
pub open spec fn first_text(c: EventCommand) -> Seq<char> {
    string_param(c.parameters@, 0).unwrap()
}

/// The text of the command at `start` followed by that of each command up to
/// `end`, each after a single space.
pub open spec fn joined_text(cmds: Seq<EventCommand>, start: int, end: int) -> Seq<char>
    decreases end - start,
{
    if end <= start + 1 {
        first_text(cmds[start])
    } else {
        joined_text(cmds, start, end - 1) + " "@ + first_text(cmds[end - 1])
    }
}

/// The text of a command that continues over the commands after it with the
/// continuation code: the lines joined with single spaces.
pub open spec fn multi_text(cmds: Seq<EventCommand>, i: int, continue_id: u16) -> Seq<char> {
    joined_text(cmds, i, run_end(cmds, i + 1, continue_id))
}

/// The command at `i` and each command that continues it has its text as its
/// first parameter.
pub open spec fn multi_ok(cmds: Seq<EventCommand>, i: int, continue_id: u16) -> bool {
    forall|j: int|
        i <= j < run_end(cmds, i + 1, continue_id) ==> string_param(
            #[trigger] cmds[j].parameters@,
            0,
        ) is Some
}

/// Reads the text of the command at `current` and of the commands after it
/// whose code is `continue_id`, joined with single spaces; returns it with the
/// index of the first command after them.
pub fn read_multi_text(commands: &[EventCommand], current: usize, continue_id: u16) -> (r: (
    String,
    usize,
))
    requires
        current < commands@.len(),
        multi_ok(commands@, current as int, continue_id),
    ensures
        r.0@ == multi_text(commands@, current as int, continue_id),
        r.1 == run_end(commands@, current + 1, continue_id),
{
    let ghost cmds = commands@;
    proof {
        lemma_run_end(cmds, current + 1, continue_id);
    }
    let first = string_parameter_at(commands[current].parameters.as_slice(), 0).unwrap();
    let mut text = String::from_str(first);
    let n = commands.len();
    let mut j: usize = current + 1;
    while j < n && commands[j].code == continue_id
        invariant
            cmds == commands@,
            n == cmds.len(),
            current < j <= run_end(cmds, current + 1, continue_id) <= n,
            run_end(cmds, current + 1, continue_id) == run_end(cmds, j as int, continue_id),
            multi_ok(cmds, current as int, continue_id),
            text@ == joined_text(cmds, current as int, j as int),
        decreases n - j,
    {
        proof {
            assert(run_end(cmds, j as int, continue_id) == run_end(cmds, j + 1, continue_id));
            lemma_run_end(cmds, j + 1, continue_id);
            assert(string_param(cmds[j as int].parameters@, 0) is Some);
        }
        let next = string_parameter_at(commands[j].parameters.as_slice(), 0).unwrap();
        text.append(" ");
        text.append(next);
        j = j + 1;
    }
    proof {
        lemma_run_end(cmds, j as int, continue_id);
    }
    (text, j)
}

/// The location of the command at `i`, with what follows it.
pub open spec fn cmd_location(context: Seq<char>, i: int, suffix: Seq<char>) -> Seq<char> {
    context + ":cmd:"@ + decimal(i as nat) + suffix
}

fn cmd_location_string(context: &str, i: usize, suffix: &str) -> (r: String)
    ensures
        r@ == cmd_location(context@, i as int, suffix@),
{
    let mut r = String::from_str(context);
    r.append(":cmd:");
    push_decimal(&mut r, i as u64);
    r.append(suffix);
    r
}

/// The index after the command at `i` and the commands that continue it.
pub open spec fn step_end(cmds: Seq<EventCommand>, i: int) -> int {
    let code = cmds[i].code;
    if code == 101 {
        run_end(cmds, i + 1, 401)
    } else if code == 108 {
        run_end(cmds, i + 1, 408)
    } else if code == 355 {
        run_end(cmds, i + 1, 655)
    } else {
        i + 1
    }
}

pub proof fn lemma_step_end(cmds: Seq<EventCommand>, i: int)
    requires
        0 <= i < cmds.len(),
    ensures
        i < step_end(cmds, i) <= cmds.len(),
{
    lemma_run_end(cmds, i + 1, 401);
    lemma_run_end(cmds, i + 1, 408);
    lemma_run_end(cmds, i + 1, 655);
}

/// Every element of an array of choices is text.
pub open spec fn all_text(a: Seq<ParameterType>) -> bool {
    forall|k: int| 0 <= k < a.len() ==> param_string(#[trigger] a[k]) is Some
}

/// The command at `i` holds the parameters that extraction reads from it.
pub open spec fn command_ok(cmds: Seq<EventCommand>, i: int) -> bool {
    let c = cmds[i];
    let ps = c.parameters@;
    if c.code == 101 {
        multi_ok(cmds, i, 401)
    } else if c.code == 102 {
        array_param(ps, 0) matches Some(a) && all_text(a)
    } else if c.code == 108 {
        multi_ok(cmds, i, 408)
    } else if c.code == 111 {
        int_param(ps, 0) == Some(12i32) ==> string_param(ps, 1) is Some
    } else if c.code == 118 || c.code == 119 {
        string_param(ps, 0) is Some
    } else if c.code == 209 {
        route_param(ps, 1) matches Some(r) && route_ok(r)
    } else if c.code == 320 {
        string_param(ps, 1) is Some
    } else if c.code == 355 {
        multi_ok(cmds, i, 655)
    } else {
        true
    }
}

/// The location of choice `k` of the command at `i`.
pub open spec fn choice_location(context: Seq<char>, i: int, k: int) -> Seq<char> {
    cmd_location(context, i, ":choice:"@ + decimal(k as nat))
}

/// What the command at `i` yields.
pub open spec fn command_output(cmds: Seq<EventCommand>, i: int, context: Seq<char>) -> Seq<
    ExtractedView,
> {
    let c = cmds[i];
    let ps = c.parameters@;
    if c.code == 101 {
        seq![text_item(cmd_location(context, i, ":text"@), multi_text(cmds, i, 401))]
    } else if c.code == 102 {
        concat_map(
            array_param(ps, 0).unwrap(),
            |k: int, p: ParameterType|
                seq![text_item(choice_location(context, i, k), param_string(p).unwrap())],
        )
    } else if c.code == 108 {
        seq![text_item(cmd_location(context, i, ":comment"@), multi_text(cmds, i, 408))]
    } else if c.code == 111 {
        if int_param(ps, 0) == Some(12i32) {
            seq![
                script_item(
                    cmd_location(context, i, ":branch:script"@),
                    string_param(ps, 1).unwrap(),
                ),
            ]
        } else {
            seq![]
        }
    } else if c.code == 118 {
        seq![text_item(cmd_location(context, i, ":label"@), string_param(ps, 0).unwrap())]
    } else if c.code == 119 {
        seq![text_item(cmd_location(context, i, ":goto label"@), string_param(ps, 0).unwrap())]
    } else if c.code == 209 {
        route_output(route_param(ps, 1).unwrap(), cmd_location(context, i, ":route"@))
    } else if c.code == 320 {
        seq![text_item(cmd_location(context, i, ":actor name"@), string_param(ps, 1).unwrap())]
    } else if c.code == 355 {
        seq![script_item(cmd_location(context, i, ":script"@), multi_text(cmds, i, 655))]
    } else {
        seq![]
    }
}

/// Every command that the walk from `i` reaches holds what extraction reads from it.
pub open spec fn commands_ok(cmds: Seq<EventCommand>, i: int) -> bool
    decreases cmds.len() - i,
{
    if 0 <= i < cmds.len() {
        proof {
            lemma_step_end(cmds, i);
        }
        command_ok(cmds, i) && commands_ok(cmds, step_end(cmds, i))
    } else {
        true
    }
}

/// What the walk from `i` yields, command by command.
pub open spec fn commands_output(cmds: Seq<EventCommand>, i: int, context: Seq<char>) -> Seq<
    ExtractedView,
>
    decreases cmds.len() - i,
{
    if 0 <= i < cmds.len() {
        proof {
            lemma_step_end(cmds, i);
        }
        command_output(cmds, i, context) + commands_output(cmds, step_end(cmds, i), context)
    } else {
        seq![]
    }
}


fn process_choices(
    choices: &[ParameterType],
    i: usize,
    strings: &mut Vec<Extracted>,
    context: &str,
)
    requires
        all_text(choices@),
    ensures
        views(final(strings)@) == views(old(strings)@) + concat_map(
            choices@,
            |k: int, p: ParameterType|
                seq![text_item(choice_location(context@, i as int, k), param_string(p).unwrap())],
        ),
{
    let ghost f = |k: int, p: ParameterType|
        seq![text_item(choice_location(context@, i as int, k), param_string(p).unwrap())];
    let n = choices.len();
    let mut k: usize = 0;
    while k < n
        invariant
            n == choices@.len(),
            k <= n,
            all_text(choices@),
            f == (|k: int, p: ParameterType|
                seq![text_item(choice_location(context@, i as int, k), param_string(p).unwrap())]),
            views(strings@) == views(old(strings)@) + concat_map(choices@.take(k as int), f),
        decreases n - k,
    {
        proof {
            lemma_concat_map_take(choices@, k as int, f);
            assert(param_string(choices@[k as int]) is Some);
        }
        let text = choices[k].as_str().unwrap();
        let mut suffix = String::from_str(":choice:");
        push_decimal(&mut suffix, k as u64);
        let location = cmd_location_string(context, i, suffix.as_str());
        proof {
            reveal_strlit(":choice:");
        }
        assert(location@ == choice_location(context@, i as int, k as int));
        push_text(strings, location, String::from_str(text));
        k = k + 1;
    }
    assert(choices@.take(n as int) =~= choices@);
}

/// Extracts from the command at `i` (and the commands that continue it);
/// returns the index of the next command to look at.
fn process_command(
    commands: &Vec<EventCommand>,
    i: usize,
    strings: &mut Vec<Extracted>,
    context: &str,
) -> (next: usize)
    requires
        i < commands@.len(),
        command_ok(commands@, i as int),
    ensures
        next == step_end(commands@, i as int),
        views(final(strings)@) == views(old(strings)@) + command_output(
            commands@,
            i as int,
            context@,
        ),
{
    let n = commands.len();
    let cmd = &commands[i];
    let code = cmd.code;
    let params = cmd.parameters.as_slice();
    if code == 101 {
        let (text, next) = read_multi_text(commands.as_slice(), i, 401);
        push_text(strings, cmd_location_string(context, i, ":text"), text);
        next
    } else if code == 102 {
        let choices = array_parameter_at(params, 0).unwrap();
        process_choices(choices, i, strings, context);
        i + 1
    } else if code == 108 {
        let (text, next) = read_multi_text(commands.as_slice(), i, 408);
        push_text(strings, cmd_location_string(context, i, ":comment"), text);
        next
    } else if code == 111 {
        let is_script = match int_parameter_at(params, 0) {
            Some(v) => v == 12,
            None => false,
        };
        if is_script {
            let text = string_parameter_at(params, 1).unwrap();
            process_script_text(
                String::from_str(text),
                strings,
                cmd_location_string(context, i, ":branch:script"),
            );
        } else {
            assert(views(strings@) =~= views(old(strings)@) + command_output(
                commands@,
                i as int,
                context@,
            ));
        }
        i + 1
    } else if code == 118 {
        let text = string_parameter_at(params, 0).unwrap();
        push_text(strings, cmd_location_string(context, i, ":label"), String::from_str(text));
        i + 1
    } else if code == 119 {
        let text = string_parameter_at(params, 0).unwrap();
        push_text(strings, cmd_location_string(context, i, ":goto label"), String::from_str(text));
        i + 1
    } else if code == 209 {
        let route = route_parameter_at(params, 1).unwrap();
        let route_context = cmd_location_string(context, i, ":route");
        process_move_route(route, strings, route_context.as_str());
        i + 1
    } else if code == 320 {
        let text = string_parameter_at(params, 1).unwrap();
        push_text(strings, cmd_location_string(context, i, ":actor name"), String::from_str(text));
        i + 1
    } else if code == 355 {
        let (text, next) = read_multi_text(commands.as_slice(), i, 655);
        process_script_text(text, strings, cmd_location_string(context, i, ":script"));
        next
    } else {
        assert(views(strings@) =~= views(old(strings)@) + command_output(
            commands@,
            i as int,
            context@,
        ));
        i + 1
    }
}

/// Extracts the text of an event command list, under the given context.
pub fn process_eventcommands(
    commands: Vec<EventCommand>,
    strings: &mut Vec<Extracted>,
    context: &str,
)
    requires
        commands_ok(commands@, 0),
    ensures
        views(final(strings)@) == views(old(strings)@) + commands_output(commands@, 0, context@),
{
    let n = commands.len();
    let mut i: usize = 0;
    while i < n
        invariant
            n == commands@.len(),
            i <= n,
            commands_ok(commands@, i as int),
            views(strings@) + commands_output(commands@, i as int, context@) == views(
                old(strings)@,
            ) + commands_output(commands@, 0, context@),
        decreases n - i,
    {
        let ghost before = views(strings@);
        proof {
            lemma_step_end(commands@, i as int);
        }
        let next = process_command(&commands, i, strings, context);
        assert(before + commands_output(commands@, i as int, context@) =~= views(strings@)
            + commands_output(commands@, next as int, context@));
        i = next;
    }
}

/// The index after the command at `i` and the commands that continue it.
fn step_end_exec(commands: &Vec<EventCommand>, i: usize) -> (next: usize)
    requires
        i < commands@.len(),
    ensures
        next == step_end(commands@, i as int),
{
    let n = commands.len();
    let code = commands[i].code;
    let continue_id: u16 = if code == 101 {
        401
    } else if code == 108 {
        408
    } else if code == 355 {
        655
    } else {
        return i + 1;
    };
    proof {
        lemma_run_end(commands@, i + 1, continue_id);
    }
    let mut j: usize = i + 1;
    while j < n && commands[j].code == continue_id
        invariant
            n == commands@.len(),
            i < j <= n,
            run_end(commands@, i + 1, continue_id) == run_end(commands@, j as int, continue_id),
        decreases n - j,
    {
        j = j + 1;
    }
    j
}

fn multi_is_well_formed(commands: &Vec<EventCommand>, i: usize, continue_id: u16) -> (b: bool)
    requires
        i < commands@.len(),
    ensures
        b == multi_ok(commands@, i as int, continue_id),
{
    let ghost cmds = commands@;
    proof {
        lemma_run_end(cmds, i + 1, continue_id);
    }
    if string_parameter_at(commands[i].parameters.as_slice(), 0).is_none() {
        return false;
    }
    let n = commands.len();
    let mut j: usize = i + 1;
    while j < n && commands[j].code == continue_id
        invariant
            cmds == commands@,
            n == cmds.len(),
            i < j <= run_end(cmds, i + 1, continue_id),
            run_end(cmds, i + 1, continue_id) == run_end(cmds, j as int, continue_id),
            forall|k: int| i <= k < j ==> string_param(#[trigger] cmds[k].parameters@, 0) is Some,
        decreases n - j,
    {
        proof {
            assert(run_end(cmds, j as int, continue_id) == run_end(cmds, j + 1, continue_id));
            lemma_run_end(cmds, j + 1, continue_id);
        }
        if string_parameter_at(commands[j].parameters.as_slice(), 0).is_none() {
            return false;
        }
        j = j + 1;
    }
    proof {
        lemma_run_end(cmds, j as int, continue_id);
    }
    true
}

fn command_is_well_formed(commands: &Vec<EventCommand>, i: usize) -> (b: bool)
    requires
        i < commands@.len(),
    ensures
        b == command_ok(commands@, i as int),
{
    let cmd = &commands[i];
    let code = cmd.code;
    let params = cmd.parameters.as_slice();
    if code == 101 {
        multi_is_well_formed(commands, i, 401)
    } else if code == 102 {
        match array_parameter_at(params, 0) {
            Some(choices) => {
                let n = choices.len();
                let mut k: usize = 0;
                while k < n
                    invariant
                        n == choices@.len(),
                        k <= n,
                        array_param(params@, 0) == Some(choices@),
                        i < commands@.len(),
                        commands@[i as int].code == 102,
                        params@ == commands@[i as int].parameters@,
                        forall|m: int| 0 <= m < k ==> param_string(#[trigger] choices@[m]) is Some,
                    decreases n - k,
                {
                    if choices[k].as_str().is_none() {
                        assert(param_string(choices@[k as int]) is None);
                        assert(array_param(params@, 0) == Some(choices@));
                        assert(!all_text(choices@));
                        return false;
                    }
                    k = k + 1;
                }
                true
            },
            None => false,
        }
    } else if code == 108 {
        multi_is_well_formed(commands, i, 408)
    } else if code == 111 {
        let is_script = match int_parameter_at(params, 0) {
            Some(v) => v == 12,
            None => false,
        };
        !is_script || string_parameter_at(params, 1).is_some()
    } else if code == 118 || code == 119 {
        string_parameter_at(params, 0).is_some()
    } else if code == 209 {
        match route_parameter_at(params, 1) {
            Some(route) => route_is_well_formed(route),
            None => false,
        }
    } else if code == 320 {
        string_parameter_at(params, 1).is_some()
    } else if code == 355 {
        multi_is_well_formed(commands, i, 655)
    } else {
        true
    }
}

/// Whether every command that extraction reaches in the list holds the
/// parameters that it reads there.
pub fn commands_are_well_formed(commands: &Vec<EventCommand>) -> (b: bool)
    ensures
        b == commands_ok(commands@, 0),
{
    let n = commands.len();
    let mut i: usize = 0;
    while i < n
        invariant
            n == commands@.len(),
            i <= n,
            commands_ok(commands@, 0) == commands_ok(commands@, i as int),
        decreases n - i,
    {
        proof {
            lemma_step_end(commands@, i as int);
        }
        if !command_is_well_formed(commands, i) {
            return false;
        }
        i = step_end_exec(commands, i);
    }
    true
}

/// Every script that a move route hands on stands under the route's context:
/// `{context}:movecmd:` and more.
pub proof fn lemma_route_output_located(route: MoveRoute, context: Seq<char>)
    ensures
        all_located_under(route_output(route, context), context + ":movecmd:"@),
{
    let p = context + ":movecmd:"@;
    let f = |i: int, c: MoveCommand| move_command_output(context, i, c);
    assert forall|i: int| 0 <= i < route.list@.len() implies all_located_under(
        #[trigger] f(i, route.list@[i]),
        p,
    ) by {
        lemma_starts_with_append(p, decimal(i as nat) + ":script"@);
        assert(move_location(context, i) =~= p + (decimal(i as nat) + ":script"@));
    }
    lemma_located_concat_map(route.list@, f, p);
}

proof fn lemma_command_output_located(cmds: Seq<EventCommand>, i: int, context: Seq<char>)
    requires
        0 <= i < cmds.len(),
    ensures
        all_located_under(command_output(cmds, i, context), context + ":cmd:"@),
{
    let p = context + ":cmd:"@;
    let c = cmds[i];
    let ps = c.parameters@;
    assert forall|suffix: Seq<char>| #[trigger] starts_with(cmd_location(context, i, suffix), p) by {
        lemma_starts_with_append(p, decimal(i as nat) + suffix);
        assert(cmd_location(context, i, suffix) =~= p + (decimal(i as nat) + suffix));
    }
    if c.code == 102 {
        let f = |k: int, q: ParameterType|
            seq![text_item(choice_location(context, i, k), param_string(q).unwrap())];
        let a = array_param(ps, 0).unwrap();
        assert forall|k: int| 0 <= k < a.len() implies all_located_under(#[trigger] f(k, a[k]), p) by {
            assert(starts_with(cmd_location(context, i, ":choice:"@ + decimal(k as nat)), p));
        }
        lemma_located_concat_map(a, f, p);
    } else if c.code == 209 {
        let l = cmd_location(context, i, ":route"@);
        let route = route_param(ps, 1).unwrap();
        lemma_route_output_located(route, l);
        let out = route_output(route, l);
        assert(starts_with(l, p));
        assert forall|k: int| 0 <= k < out.len() implies starts_with(location_of(#[trigger] out[k]), p) by {
            lemma_starts_with_append(l, ":movecmd:"@);
            lemma_starts_with_trans(location_of(out[k]), l + ":movecmd:"@, l);
            lemma_starts_with_trans(location_of(out[k]), l, p);
        }
    } else {
        assert(starts_with(cmd_location(context, i, ":text"@), p));
        assert(starts_with(cmd_location(context, i, ":comment"@), p));
        assert(starts_with(cmd_location(context, i, ":branch:script"@), p));
        assert(starts_with(cmd_location(context, i, ":label"@), p));
        assert(starts_with(cmd_location(context, i, ":goto label"@), p));
        assert(starts_with(cmd_location(context, i, ":actor name"@), p));
        assert(starts_with(cmd_location(context, i, ":script"@), p));
    }
}

proof fn lemma_commands_output_located_from(cmds: Seq<EventCommand>, i: int, context: Seq<char>)
    requires
        0 <= i,
    ensures
        all_located_under(commands_output(cmds, i, context), context + ":cmd:"@),
    decreases cmds.len() - i,
{
    if i < cmds.len() {
        lemma_step_end(cmds, i);
        lemma_command_output_located(cmds, i, context);
        lemma_commands_output_located_from(cmds, step_end(cmds, i), context);
        lemma_located_concat(
            command_output(cmds, i, context),
            commands_output(cmds, step_end(cmds, i), context),
            context + ":cmd:"@,
        );
    }
}

/// Every string and script that an event command list yields stands under
/// the list's context: its location is `{context}:cmd:` and more.
pub proof fn lemma_commands_output_located(cmds: Seq<EventCommand>, context: Seq<char>)
    ensures
        all_located_under(commands_output(cmds, 0, context), context + ":cmd:"@),
{
    lemma_commands_output_located_from(cmds, 0, context);
}

/// The scripts that a move route hands on under the context `p + context` are
/// those under `context`, with `p` in front of each location.
pub proof fn lemma_route_output_prefix(route: MoveRoute, p: Seq<char>, context: Seq<char>)
    ensures
        route_output(route, p + context) == prefix_all(p, route_output(route, context)),
{
    let f = |i: int, c: MoveCommand| move_command_output(context, i, c);
    let g = |i: int, c: MoveCommand| move_command_output(p + context, i, c);
    assert forall|i: int| 0 <= i < route.list@.len() implies #[trigger] g(i, route.list@[i])
        == prefix_all(p, f(i, route.list@[i])) by {
        assert(move_location(p + context, i) =~= p + move_location(context, i));
        assert(g(i, route.list@[i]) =~= prefix_all(p, f(i, route.list@[i])));
    }
    lemma_concat_map_prefix(route.list@, f, g, p);
}

proof fn lemma_command_output_prefix(
    cmds: Seq<EventCommand>,
    i: int,
    p: Seq<char>,
    context: Seq<char>,
)
    requires
        0 <= i < cmds.len(),
    ensures
        command_output(cmds, i, p + context) == prefix_all(p, command_output(cmds, i, context)),
{
    let c = cmds[i];
    let ps = c.parameters@;
    assert forall|suffix: Seq<char>| #[trigger] cmd_location(p + context, i, suffix) == p
        + cmd_location(context, i, suffix) by {
        assert(cmd_location(p + context, i, suffix) =~= p + cmd_location(context, i, suffix));
    }
    if c.code == 102 {
        let a = array_param(ps, 0).unwrap();
        let f = |k: int, q: ParameterType|
            seq![text_item(choice_location(context, i, k), param_string(q).unwrap())];
        let g = |k: int, q: ParameterType|
            seq![text_item(choice_location(p + context, i, k), param_string(q).unwrap())];
        assert forall|k: int| 0 <= k < a.len() implies #[trigger] g(k, a[k]) == prefix_all(
            p,
            f(k, a[k]),
        ) by {
            assert(choice_location(p + context, i, k) == p + choice_location(context, i, k));
            assert(g(k, a[k]) =~= prefix_all(p, f(k, a[k])));
        }
        lemma_concat_map_prefix(a, f, g, p);
    } else if c.code == 209 {
        lemma_route_output_prefix(
            route_param(ps, 1).unwrap(),
            p,
            cmd_location(context, i, ":route"@),
        );
    } else {
        assert(command_output(cmds, i, p + context) =~= prefix_all(
            p,
            command_output(cmds, i, context),
        ));
    }
}

proof fn lemma_commands_output_prefix_from(
    cmds: Seq<EventCommand>,
    i: int,
    p: Seq<char>,
    context: Seq<char>,
)
    requires
        0 <= i,
    ensures
        commands_output(cmds, i, p + context) == prefix_all(p, commands_output(cmds, i, context)),
    decreases cmds.len() - i,
{
    if i < cmds.len() {
        lemma_step_end(cmds, i);
        lemma_command_output_prefix(cmds, i, p, context);
        lemma_commands_output_prefix_from(cmds, step_end(cmds, i), p, context);
        lemma_prefix_all_concat(
            p,
            command_output(cmds, i, context),
            commands_output(cmds, step_end(cmds, i), context),
        );
    } else {
        assert(prefix_all(p, Seq::<ExtractedView>::empty()) =~= Seq::<ExtractedView>::empty());
    }
}

/// What an event command list yields under the context `p + context` is what
/// it yields under `context`, with `p` in front of each location.
pub proof fn lemma_commands_output_prefix(cmds: Seq<EventCommand>, p: Seq<char>, context: Seq<char>)
    ensures
        commands_output(cmds, 0, p + context) == prefix_all(p, commands_output(cmds, 0, context)),
{
    lemma_commands_output_prefix_from(cmds, 0, p, context);
}

/// A move route command reached in the walk yields exactly what
/// `process_move_route` yields for its route (the second parameter) under
/// the context `{context}:cmd:{i}:route`, and the walk goes on at the next
/// command.
pub proof fn lemma_move_route_command(
    cmds: Seq<EventCommand>,
    i: int,
    context: Seq<char>,
    route: MoveRoute,
)
    requires
        0 <= i < cmds.len(),
        cmds[i].code == 209,
        route_param(cmds[i].parameters@, 1) == Some(route),
    ensures
        command_output(cmds, i, context) == route_output(route, cmd_location(context, i, ":route"@)),
        step_end(cmds, i) == i + 1,
{
}

/// A script command reached in the walk, together with the commands of code
/// 655 right after it, hands on one script: their first parameters joined
/// with single spaces, under `{context}:cmd:{i}:script`; the walk goes on at
/// the first command after them.
pub proof fn lemma_script_command(cmds: Seq<EventCommand>, i: int, context: Seq<char>)
    requires
        0 <= i < cmds.len(),
        cmds[i].code == 355,
    ensures
        command_output(cmds, i, context) == seq![
            script_item(cmd_location(context, i, ":script"@), multi_text(cmds, i, 655)),
        ],
        step_end(cmds, i) == run_end(cmds, i + 1, 655),
        i < run_end(cmds, i + 1, 655) <= cmds.len(),
        forall|j: int| i < j < run_end(cmds, i + 1, 655) ==> #[trigger] cmds[j].code == 655,
        run_end(cmds, i + 1, 655) < cmds.len() ==> cmds[run_end(cmds, i + 1, 655)].code != 655,
        multi_text(cmds, i, 655) == joined_text(cmds, i, run_end(cmds, i + 1, 655)),
{
    lemma_run_end(cmds, i + 1, 655);
}

/// The start of the location of everything that the command at `i` yields.
pub open spec fn head_prefix(context: Seq<char>, i: int) -> Seq<char> {
    context + ":cmd:"@ + decimal(i as nat) + ":"@
}

/// For each item that the walk from `i` yields, the index of the command
/// (continuation commands counted) that yields it.
pub open spec fn commands_heads(cmds: Seq<EventCommand>, i: int, context: Seq<char>) -> Seq<int>
    decreases cmds.len() - i,
{
    if 0 <= i < cmds.len() {
        proof {
            lemma_step_end(cmds, i);
        }
        Seq::new(command_output(cmds, i, context).len(), |k: int| i) + commands_heads(
            cmds,
            step_end(cmds, i),
            context,
        )
    } else {
        seq![]
    }
}

proof fn lemma_cmd_location_under(context: Seq<char>, i: int, suffix: Seq<char>)
    requires
        suffix.len() > 0,
        suffix[0] == ':',
    ensures
        starts_with(cmd_location(context, i, suffix), head_prefix(context, i)),
{
    reveal_strlit(":");
    assert(cmd_location(context, i, suffix) =~= head_prefix(context, i) + suffix.skip(1));
    lemma_starts_with_append(head_prefix(context, i), suffix.skip(1));
}

proof fn lemma_command_output_under_head(cmds: Seq<EventCommand>, i: int, context: Seq<char>)
    requires
        0 <= i < cmds.len(),
    ensures
        all_located_under(command_output(cmds, i, context), head_prefix(context, i)),
{
    let h = head_prefix(context, i);
    let c = cmds[i];
    let ps = c.parameters@;
    reveal_strlit(":text");
    reveal_strlit(":choice:");
    reveal_strlit(":comment");
    reveal_strlit(":branch:script");
    reveal_strlit(":label");
    reveal_strlit(":goto label");
    reveal_strlit(":route");
    reveal_strlit(":actor name");
    reveal_strlit(":script");
    if c.code == 102 {
        let f = |k: int, q: ParameterType|
            seq![text_item(choice_location(context, i, k), param_string(q).unwrap())];
        let a = array_param(ps, 0).unwrap();
        assert forall|k: int| 0 <= k < a.len() implies all_located_under(#[trigger] f(k, a[k]), h) by {
            lemma_cmd_location_under(context, i, ":choice:"@ + decimal(k as nat));
        }
        lemma_located_concat_map(a, f, h);
    } else if c.code == 209 {
        let l = cmd_location(context, i, ":route"@);
        lemma_cmd_location_under(context, i, ":route"@);
        let route = route_param(ps, 1).unwrap();
        lemma_route_output_located(route, l);
        let out = route_output(route, l);
        assert forall|k: int| 0 <= k < out.len() implies starts_with(location_of(#[trigger] out[k]), h) by {
            lemma_starts_with_append(l, ":movecmd:"@);
            lemma_starts_with_trans(location_of(out[k]), l + ":movecmd:"@, l);
            lemma_starts_with_trans(location_of(out[k]), l, h);
        }
    } else {
        lemma_cmd_location_under(context, i, ":text"@);
        lemma_cmd_location_under(context, i, ":comment"@);
        lemma_cmd_location_under(context, i, ":branch:script"@);
        lemma_cmd_location_under(context, i, ":label"@);
        lemma_cmd_location_under(context, i, ":goto label"@);
        lemma_cmd_location_under(context, i, ":actor name"@);
        lemma_cmd_location_under(context, i, ":script"@);
    }
}

proof fn lemma_commands_heads_from(cmds: Seq<EventCommand>, i: int, context: Seq<char>)
    requires
        0 <= i,
    ensures
        commands_heads(cmds, i, context).len() == commands_output(cmds, i, context).len(),
        forall|k: int|
            0 <= k < commands_heads(cmds, i, context).len() ==> i <= #[trigger] commands_heads(
                cmds,
                i,
                context,
            )[k] < cmds.len() && starts_with(
                location_of(commands_output(cmds, i, context)[k]),
                head_prefix(context, commands_heads(cmds, i, context)[k]),
            ),
        forall|a: int, b: int|
            0 <= a <= b < commands_heads(cmds, i, context).len() ==> #[trigger] commands_heads(
                cmds,
                i,
                context,
            )[a] <= #[trigger] commands_heads(cmds, i, context)[b],
    decreases cmds.len() - i,
{
    if i < cmds.len() {
        lemma_step_end(cmds, i);
        let n = step_end(cmds, i);
        lemma_commands_heads_from(cmds, n, context);
        lemma_command_output_under_head(cmds, i, context);
        let c = command_output(cmds, i, context);
        let ro = commands_output(cmds, n, context);
        let rh = commands_heads(cmds, n, context);
        let out = commands_output(cmds, i, context);
        let h = commands_heads(cmds, i, context);
        assert(out == c + ro);
        assert(h == Seq::new(c.len(), |k: int| i) + rh);
        assert forall|k: int| 0 <= k < h.len() implies i <= #[trigger] h[k] < cmds.len()
            && starts_with(location_of(out[k]), head_prefix(context, h[k])) by {
            if k < c.len() {
                assert(h[k] == i);
                assert(out[k] == c[k]);
            } else {
                assert(h[k] == rh[k - c.len()]);
                assert(out[k] == ro[k - c.len()]);
            }
        }
        assert forall|a: int, b: int| 0 <= a <= b < h.len() implies #[trigger] h[a] <= #[trigger] h[b] by {
            if b < c.len() {
                assert(h[a] == i && h[b] == i);
            } else if a < c.len() {
                assert(h[a] == i);
                assert(h[b] == rh[b - c.len()]);
            } else {
                assert(h[a] == rh[a - c.len()]);
                assert(h[b] == rh[b - c.len()]);
            }
        }
    }
}

/// Every item that an event command list yields comes from one command, the
/// one whose index (continuation commands counted) its location names:
/// it starts with `{context}:cmd:{index}:`; and these indices never go down
/// along the items.
pub proof fn lemma_commands_output_heads(cmds: Seq<EventCommand>, context: Seq<char>)
    ensures
        commands_heads(cmds, 0, context).len() == commands_output(cmds, 0, context).len(),
        forall|k: int|
            0 <= k < commands_heads(cmds, 0, context).len() ==> 0 <= #[trigger] commands_heads(
                cmds,
                0,
                context,
            )[k] < cmds.len() && starts_with(
                location_of(commands_output(cmds, 0, context)[k]),
                head_prefix(context, commands_heads(cmds, 0, context)[k]),
            ),
        forall|a: int, b: int|
            0 <= a <= b < commands_heads(cmds, 0, context).len() ==> #[trigger] commands_heads(
                cmds,
                0,
                context,
            )[a] <= #[trigger] commands_heads(cmds, 0, context)[b],
{
    lemma_commands_heads_from(cmds, 0, context);
}

/// Joining a command's lines keeps every line: the text of the first line
/// alone is its first parameter, and the text up to line `j + 1` is the text
/// up to line `j`, a single space, and the first parameter of line `j`, for
/// every line, however many there are.
pub proof fn lemma_joined_text_keeps_every_line(cmds: Seq<EventCommand>, start: int, end: int)
    requires
        0 <= start < end,
    ensures
        joined_text(cmds, start, start + 1) == string_param(cmds[start].parameters@, 0).unwrap(),
        forall|j: int|
            start < j < end ==> #[trigger] joined_text(cmds, start, j + 1) == joined_text(
                cmds,
                start,
                j,
            ) + seq![' '] + string_param(cmds[j].parameters@, 0).unwrap(),
{
    reveal_strlit(" ");
    assert forall|j: int| start < j < end implies #[trigger] joined_text(cmds, start, j + 1)
        == joined_text(cmds, start, j) + seq![' '] + string_param(cmds[j].parameters@, 0).unwrap() by {
        assert(" "@ =~= seq![' ']);
    }
}

/// A show-text, comment or script command reached in the walk yields one
/// item whose text is its lines joined: the text of the command and of each
/// following command with the continuation code, in order, one space apart.
pub proof fn lemma_multi_line_commands(cmds: Seq<EventCommand>, i: int, context: Seq<char>)
    requires
        0 <= i < cmds.len(),
        cmds[i].code == 101 || cmds[i].code == 108 || cmds[i].code == 355,
    ensures
        ({
            let c = cmds[i].code;
            let cont: u16 = if c == 101 {
                401
            } else if c == 108 {
                408
            } else {
                655
            };
            let suffix = if c == 101 {
                ":text"@
            } else if c == 108 {
                ":comment"@
            } else {
                ":script"@
            };
            let g = GameStringView {
                location: context + ":cmd:"@ + decimal(i as nat) + suffix,
                text: joined_text(cmds, i, run_end(cmds, i + 1, cont)),
            };
            &&& command_output(cmds, i, context) == seq![
                if c == 355 {
                    ExtractedView::Script(g)
                } else {
                    ExtractedView::Text(g)
                },
            ]
            &&& step_end(cmds, i) == run_end(cmds, i + 1, cont)
            &&& forall|j: int| i < j < run_end(cmds, i + 1, cont) ==> #[trigger] cmds[j].code == cont
            &&& run_end(cmds, i + 1, cont) < cmds.len() ==> cmds[run_end(cmds, i + 1, cont)].code
                != cont
        }),
{
    lemma_run_end(cmds, i + 1, 401);
    lemma_run_end(cmds, i + 1, 408);
    lemma_run_end(cmds, i + 1, 655);
}

/// What each other kind of command reached in the walk yields: a label, a
/// jump to a label or an actor's new name is one string under
/// `{context}:cmd:{i}:label`, `:goto label` or `:actor name`; a conditional
/// branch on a script (first parameter 12) hands on its second parameter
/// under `:branch:script`, and any other branch nothing; the choices of a
/// menu are one string each, choice `k` under `:choice:{k}`; a command of
/// any code not named here yields nothing.
pub proof fn lemma_single_commands(cmds: Seq<EventCommand>, i: int, context: Seq<char>)
    requires
        0 <= i < cmds.len(),
    ensures
        ({
            let c = cmds[i].code;
            let ps = cmds[i].parameters@;
            let at = context + ":cmd:"@ + decimal(i as nat);
            &&& c == 118 ==> command_output(cmds, i, context) == seq![
                ExtractedView::Text(
                    GameStringView { location: at + ":label"@, text: string_param(ps, 0).unwrap() },
                ),
            ]
            &&& c == 119 ==> command_output(cmds, i, context) == seq![
                ExtractedView::Text(
                    GameStringView {
                        location: at + ":goto label"@,
                        text: string_param(ps, 0).unwrap(),
                    },
                ),
            ]
            &&& c == 320 ==> command_output(cmds, i, context) == seq![
                ExtractedView::Text(
                    GameStringView {
                        location: at + ":actor name"@,
                        text: string_param(ps, 1).unwrap(),
                    },
                ),
            ]
            &&& c == 111 && int_param(ps, 0) == Some(12i32) ==> command_output(cmds, i, context)
                == seq![
                ExtractedView::Script(
                    GameStringView {
                        location: at + ":branch:script"@,
                        text: string_param(ps, 1).unwrap(),
                    },
                ),
            ]
            &&& c == 111 && int_param(ps, 0) != Some(12i32) ==> command_output(cmds, i, context)
                == Seq::<ExtractedView>::empty()
            &&& c == 102 ==> command_output(cmds, i, context).len() == array_param(ps, 0).unwrap().len()
                && forall|k: int|
                0 <= k < array_param(ps, 0).unwrap().len() ==> #[trigger] command_output(
                    cmds,
                    i,
                    context,
                )[k] == ExtractedView::Text(
                    GameStringView {
                        location: at + ":choice:"@ + decimal(k as nat),
                        text: param_string(array_param(ps, 0).unwrap()[k]).unwrap(),
                    },
                )
            &&& c != 101 && c != 102 && c != 108 && c != 111 && c != 118 && c != 119 && c != 209
                && c != 320 && c != 355 ==> command_output(cmds, i, context)
                == Seq::<ExtractedView>::empty() && step_end(cmds, i) == i + 1
        }),
{
    let c = cmds[i].code;
    let ps = cmds[i].parameters@;
    let at = context + ":cmd:"@ + decimal(i as nat);
    if c == 102 {
        let a = array_param(ps, 0).unwrap();
        let f = |k: int, p: ParameterType|
            seq![text_item(choice_location(context, i, k), param_string(p).unwrap())];
        lemma_concat_map_items(a, f);
        assert forall|k: int| 0 <= k < a.len() implies #[trigger] command_output(cmds, i, context)[k]
            == ExtractedView::Text(
            GameStringView {
                location: at + ":choice:"@ + decimal(k as nat),
                text: param_string(a[k]).unwrap(),
            },
        ) by {
            assert(choice_location(context, i, k) =~= at + ":choice:"@ + decimal(k as nat));
        }
    }
}

/// A move route hands on, for each script move command (code 45) and only
/// for those, its first parameter under `{context}:movecmd:{i}:script`, in
/// order, after the commands before it.
pub proof fn lemma_route_each(route: MoveRoute, context: Seq<char>, i: int)
    requires
        0 <= i < route.list@.len(),
    ensures
        concat_map(
            route.list@.take(i + 1),
            |i: int, c: MoveCommand| move_command_output(context, i, c),
        ) == concat_map(
            route.list@.take(i),
            |i: int, c: MoveCommand| move_command_output(context, i, c),
        ) + (if route.list@[i].code == 45 {
            seq![
                ExtractedView::Script(
                    GameStringView {
                        location: context + ":movecmd:"@ + decimal(i as nat) + ":script"@,
                        text: string_param(route.list@[i].parameters@, 0).unwrap(),
                    },
                ),
            ]
        } else {
            seq![]
        }),
        route_output(route, context) == concat_map(
            route.list@.take(route.list@.len() as int),
            |i: int, c: MoveCommand| move_command_output(context, i, c),
        ),
{
    lemma_concat_map_take(route.list@, i, |i: int, c: MoveCommand| move_command_output(context, i, c));
    assert(route.list@.take(route.list@.len() as int) =~= route.list@);
}

/// The walk over a command list: from a command inside the list, it yields
/// what that command yields, then goes on after the command (and the lines
/// that continue it); past the end it yields nothing. Every command other
/// than a show-text, comment or script command is followed directly by the
/// next one.
pub proof fn lemma_commands_walk(cmds: Seq<EventCommand>, i: int, context: Seq<char>)
    requires
        0 <= i,
    ensures
        i < cmds.len() ==> commands_output(cmds, i, context) == command_output(cmds, i, context)
            + commands_output(cmds, step_end(cmds, i), context),
        i >= cmds.len() ==> commands_output(cmds, i, context) == Seq::<ExtractedView>::empty(),
        i < cmds.len() && cmds[i].code != 101 && cmds[i].code != 108 && cmds[i].code != 355
            ==> step_end(cmds, i) == i + 1,
        i < cmds.len() ==> i < step_end(cmds, i) <= cmds.len(),
{
    if i < cmds.len() {
        lemma_step_end(cmds, i);
    }
}

} // verus!
