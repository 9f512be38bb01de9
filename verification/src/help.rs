//! The machine-readable help document: worked examples per command, and the
//! conversion of the command-line definition (commands, arguments) into the
//! document that `--help --json` prints.
use vstd::prelude::*;
use crate::args::opt_view;
use crate::keys::views;
use crate::text::{push_char, str_eq};

verus! {

/// One worked example: what it does and the exact argv to run it.
pub struct HelpExample {
    pub description: String,
    pub argv: Vec<String>,
}

/// An example as plain text: its description and its argv.
pub open spec fn example_view(e: HelpExample) -> (Seq<char>, Seq<Seq<char>>) {
    (e.description@, views(e.argv@))
}

pub open spec fn ex(d: Seq<char>, argv: Seq<Seq<char>>) -> (Seq<char>, Seq<Seq<char>>) {
    (d, argv)
}

/// The examples shown for the command path `path` (program name first):
/// a general set at the top level, one for each of the commands agents use
/// most, none elsewhere.
pub open spec fn examples_for(path: Seq<Seq<char>>) -> Seq<(Seq<char>, Seq<Seq<char>>)> {
    if path.len() < 2 {
        seq![
            ex("List open issues"@, seq!["issuectl"@, "list"@]),
            ex("Show an issue as JSON"@, seq!["issuectl"@, "show"@, "login-loop"@, "--json"@]),
            ex("Create a bug"@, seq!["issuectl"@, "create"@, "--type"@, "bug"@, "--title"@, "Login loop"@]),
            ex("Update an issue status"@, seq!["issuectl"@, "update"@, "login-loop"@, "--status"@, "in-progress"@]),
        ]
    } else if path[1] == "create"@ {
        seq![ex("Create a bug with a descriptive title"@, seq!["issuectl"@, "create"@, "--type"@, "bug"@, "--title"@, "Login loop"@])]
    } else if path[1] == "list"@ {
        seq![ex("List open bugs as JSON"@, seq!["issuectl"@, "list"@, "--type"@, "bug"@, "--json"@])]
    } else if path[1] == "show"@ {
        seq![ex("Show one issue as JSON"@, seq!["issuectl"@, "show"@, "login-loop"@, "--json"@])]
    } else if path[1] == "update"@ {
        seq![ex("Set an issue status"@, seq!["issuectl"@, "update"@, "login-loop"@, "--status"@, "in-progress"@])]
    } else if path[1] == "close"@ {
        seq![ex("Close an issue as fixed"@, seq!["issuectl"@, "close"@, "login-loop"@, "--status"@, "fixed"@])]
    } else if path[1] == "search"@ {
        seq![ex("Search issue text"@, seq!["issuectl"@, "search"@, "login"@])]
    } else if path[1] == "config"@ {
        seq![ex("Show effective configuration"@, seq!["issuectl"@, "config"@, "show"@, "--json"@])]
    } else if path[1] == "skill"@ {
        seq![ex("List bundled skills"@, seq!["issuectl"@, "skill"@, "list"@, "--json"@])]
    } else {
        seq![]
    }
}

fn s(x: &str) -> (r: String)
    ensures
        r@ == x@,
{
    String::from_str(x)
}

fn example(description: &str, argv: Vec<String>) -> (r: HelpExample)
    ensures
        r.description@ == description@,
        r.argv == argv,
{
    HelpExample { description: s(description), argv }
}

/// The worked examples for the command path `path` (program name first).
/// The argv arrays are shell-independent: a caller can hand them to a
/// process launcher without reparsing a shell string.
pub fn help_examples(path: &Vec<String>) -> (r: Vec<HelpExample>)
    ensures
        r@.len() == examples_for(views(path@)).len(),
        forall|i: int| 0 <= i < r@.len() ==> example_view(#[trigger] r@[i]) == examples_for(views(path@))[i],
{
    let ghost p = views(path@);
    let mut out: Vec<HelpExample> = Vec::new();
    if path.len() < 2 {
        out.push(example("List open issues", vec![s("issuectl"), s("list")]));
        out.push(example("Show an issue as JSON", vec![s("issuectl"), s("show"), s("login-loop"), s("--json")]));
        out.push(example("Create a bug", vec![s("issuectl"), s("create"), s("--type"), s("bug"), s("--title"), s("Login loop")]));
        out.push(example("Update an issue status", vec![s("issuectl"), s("update"), s("login-loop"), s("--status"), s("in-progress")]));
        proof {
            assert(views(out@[0].argv@) =~= seq!["issuectl"@, "list"@]);
            assert(views(out@[1].argv@) =~= seq!["issuectl"@, "show"@, "login-loop"@, "--json"@]);
            assert(views(out@[2].argv@) =~= seq!["issuectl"@, "create"@, "--type"@, "bug"@, "--title"@, "Login loop"@]);
            assert(views(out@[3].argv@) =~= seq!["issuectl"@, "update"@, "login-loop"@, "--status"@, "in-progress"@]);
        }
        return out;
    }
    let cmd = path[1].as_str();
    assert(cmd@ == p[1]);
    if str_eq(cmd, "create") {
        out.push(example("Create a bug with a descriptive title", vec![s("issuectl"), s("create"), s("--type"), s("bug"), s("--title"), s("Login loop")]));
        assert(views(out@[0].argv@) =~= seq!["issuectl"@, "create"@, "--type"@, "bug"@, "--title"@, "Login loop"@]);
    } else if str_eq(cmd, "list") {
        out.push(example("List open bugs as JSON", vec![s("issuectl"), s("list"), s("--type"), s("bug"), s("--json")]));
        assert(views(out@[0].argv@) =~= seq!["issuectl"@, "list"@, "--type"@, "bug"@, "--json"@]);
    } else if str_eq(cmd, "show") {
        out.push(example("Show one issue as JSON", vec![s("issuectl"), s("show"), s("login-loop"), s("--json")]));
        assert(views(out@[0].argv@) =~= seq!["issuectl"@, "show"@, "login-loop"@, "--json"@]);
    } else if str_eq(cmd, "update") {
        out.push(example("Set an issue status", vec![s("issuectl"), s("update"), s("login-loop"), s("--status"), s("in-progress")]));
        assert(views(out@[0].argv@) =~= seq!["issuectl"@, "update"@, "login-loop"@, "--status"@, "in-progress"@]);
    } else if str_eq(cmd, "close") {
        out.push(example("Close an issue as fixed", vec![s("issuectl"), s("close"), s("login-loop"), s("--status"), s("fixed")]));
        assert(views(out@[0].argv@) =~= seq!["issuectl"@, "close"@, "login-loop"@, "--status"@, "fixed"@]);
    } else if str_eq(cmd, "search") {
        out.push(example("Search issue text", vec![s("issuectl"), s("search"), s("login")]));
        assert(views(out@[0].argv@) =~= seq!["issuectl"@, "search"@, "login"@]);
    } else if str_eq(cmd, "config") {
        out.push(example("Show effective configuration", vec![s("issuectl"), s("config"), s("show"), s("--json")]));
        assert(views(out@[0].argv@) =~= seq!["issuectl"@, "config"@, "show"@, "--json"@]);
    } else if str_eq(cmd, "skill") {
        out.push(example("List bundled skills", vec![s("issuectl"), s("skill"), s("list"), s("--json")]));
        assert(views(out@[0].argv@) =~= seq!["issuectl"@, "skill"@, "list"@, "--json"@]);
    }
    out
}

/// What the help document reads of one argument of the command-line
/// definition.
pub struct ArgSpec {
    pub id: String,
    pub short: Option<char>,
    pub long: Option<String>,
    pub required: bool,
    pub global: bool,
    pub hidden: bool,
    pub positional: bool,
    pub long_help: Option<String>,
    pub help: Option<String>,
    pub takes_values: bool,
    pub value_names: Vec<String>,
    pub default_values: Vec<String>,
    pub possible_values: Vec<String>,
    pub env: Option<String>,
}

/// What the help document reads of one command (or subcommand) of the
/// command-line definition.
pub struct CommandSpec {
    pub name: String,
    pub long_about: Option<String>,
    pub about: Option<String>,
    pub hidden: bool,
    pub visible_aliases: Vec<String>,
    pub args: Vec<ArgSpec>,
    pub subcommands: Vec<CommandSpec>,
}

/// One argument or flag as the help document shows it.
pub struct HelpArgument {
    pub name: String,
    pub short: Option<String>,
    pub long: Option<String>,
    pub required: bool,
    pub global: bool,
    pub description: Option<String>,
    pub value_names: Vec<String>,
    pub default: Vec<String>,
    pub possible_values: Vec<String>,
    pub env: Option<String>,
}

/// One visible subcommand as the help document lists it.
pub struct HelpSubcommand {
    pub name: String,
    pub aliases: Vec<String>,
    pub description: Option<String>,
}

/// The machine-readable help for one command.
pub struct HelpDocument {
    pub path: Vec<String>,
    pub name: String,
    pub description: Option<String>,
    pub subcommands: Vec<HelpSubcommand>,
    pub args: Vec<HelpArgument>,
    pub flags: Vec<HelpArgument>,
    pub examples: Vec<HelpExample>,
}

/// The long text where there is one, else the short one.
pub open spec fn preferred(long: Option<String>, short: Option<String>) -> Option<Seq<char>> {
    if long is Some {
        opt_view(long)
    } else {
        opt_view(short)
    }
}

/// Values an argument lists only when it takes values at all.
pub open spec fn when_valued(takes_values: bool, v: Vec<String>) -> Seq<Seq<char>> {
    if takes_values {
        views(v@)
    } else {
        seq![]
    }
}

/// `h` is how the help document shows the argument `a`.
pub open spec fn describes(h: HelpArgument, a: ArgSpec) -> bool {
    &&& h.name@ == a.id@
    &&& opt_view(h.short) == (match a.short {
        Some(c) => Some(seq!['-', c]),
        None => None::<Seq<char>>,
    })
    &&& opt_view(h.long) == (match a.long {
        Some(l) => Some("--"@ + l@),
        None => None::<Seq<char>>,
    })
    &&& h.required == a.required
    &&& h.global == a.global
    &&& opt_view(h.description) == preferred(a.long_help, a.help)
    &&& views(h.value_names@) == when_valued(a.takes_values, a.value_names)
    &&& views(h.default@) == when_valued(a.takes_values, a.default_values)
    &&& views(h.possible_values@) == when_valued(a.takes_values, a.possible_values)
    &&& opt_view(h.env) == opt_view(a.env)
}

pub open spec fn describes_all(h: Seq<HelpArgument>, a: Seq<ArgSpec>) -> bool {
    h.len() == a.len() && forall|i: int| 0 <= i < h.len() ==> describes(#[trigger] h[i], a[i])
}

/// `h` is how the help document lists the subcommand `c`.
pub open spec fn lists(h: HelpSubcommand, c: CommandSpec) -> bool {
    &&& h.name@ == c.name@
    &&& views(h.aliases@) == views(c.visible_aliases@)
    &&& opt_view(h.description) == preferred(c.long_about, c.about)
}

/// Which arguments of a command a part of the help document lists.
pub enum ArgGroup {
    /// Visible positional arguments.
    Positionals,
    /// Visible flags (non-positional arguments).
    Flags,
    /// Visible global flags.
    Globals,
}

pub open spec fn in_group(g: ArgGroup, x: ArgSpec) -> bool {
    match g {
        ArgGroup::Positionals => !x.hidden && x.positional,
        ArgGroup::Flags => !x.hidden && !x.positional,
        ArgGroup::Globals => x.global && !x.hidden,
    }
}

pub open spec fn group_pred(g: ArgGroup) -> spec_fn(ArgSpec) -> bool {
    |x: ArgSpec| in_group(g, x)
}

/// The arguments of `a` in group `g`, in definition order.
pub open spec fn shown(a: Seq<ArgSpec>, g: ArgGroup) -> Seq<ArgSpec> {
    a.filter(group_pred(g))
}

pub open spec fn visible_pred() -> spec_fn(CommandSpec) -> bool {
    |x: CommandSpec| !x.hidden
}

/// The visible subcommands, in definition order.
pub open spec fn shown_subcommands(c: Seq<CommandSpec>) -> Seq<CommandSpec> {
    c.filter(visible_pred())
}

fn copy_string(x: &String) -> (r: String)
    ensures
        r@ == x@,
{
    x.clone()
}

fn copy_opt(x: &Option<String>) -> (r: Option<String>)
    ensures
        opt_view(r) == opt_view(*x),
{
    match x {
        Some(v) => Some(copy_string(v)),
        None => None,
    }
}

fn copy_strings(v: &Vec<String>) -> (r: Vec<String>)
    ensures
        views(r@) == views(v@),
{
    let mut out: Vec<String> = Vec::new();
    let mut i: usize = 0;
    while i < v.len()
        invariant
            i <= v.len(),
            out@.len() == i,
            forall|j: int| 0 <= j < i ==> (#[trigger] out@[j])@ == v@[j]@,
        decreases v.len() - i,
    {
        out.push(copy_string(&v[i]));
        i = i + 1;
    }
    assert(views(out@) =~= views(v@));
    out
}

fn preferred_text(long: &Option<String>, short: &Option<String>) -> (r: Option<String>)
    ensures
        opt_view(r) == preferred(*long, *short),
{
    if long.is_some() {
        copy_opt(long)
    } else {
        copy_opt(short)
    }
}

fn valued(takes_values: bool, v: &Vec<String>) -> (r: Vec<String>)
    ensures
        views(r@) == when_valued(takes_values, *v),
{
    if takes_values {
        copy_strings(v)
    } else {
        let r: Vec<String> = Vec::new();
        assert(views(r@) =~= seq![]);
        r
    }
}

/// How the help document shows one argument: `-s` / `--long` spelled out,
/// the long help preferred over the short, and value names, defaults and
/// possible values listed only for an argument that takes values.
pub fn help_argument(arg: &ArgSpec) -> (r: HelpArgument)
    ensures
        describes(r, *arg),
{
    let short = match arg.short {
        Some(c) => {
            let mut t = String::from_str("-");
            push_char(&mut t, c);
            Some(t)
        },
        None => None,
    };
    let long = match &arg.long {
        Some(l) => {
            let mut t = String::from_str("--");
            t.append(l.as_str());
            Some(t)
        },
        None => None,
    };
    proof {
        reveal_strlit("-");
        if arg.short is Some {
            assert(short->0@ =~= seq!['-', arg.short->0]);
        }
    }
    HelpArgument {
        name: copy_string(&arg.id),
        short,
        long,
        required: arg.required,
        global: arg.global,
        description: preferred_text(&arg.long_help, &arg.help),
        value_names: valued(arg.takes_values, &arg.value_names),
        default: valued(arg.takes_values, &arg.default_values),
        possible_values: valued(arg.takes_values, &arg.possible_values),
        env: copy_opt(&arg.env),
    }
}

proof fn lemma_filter_step<A>(s: Seq<A>, pred: spec_fn(A) -> bool, i: int)
    requires
        0 <= i < s.len(),
    ensures
        s.take(i + 1).filter(pred) == (if pred(s[i]) {
            s.take(i).filter(pred).push(s[i])
        } else {
            s.take(i).filter(pred)
        }),
{
    reveal(Seq::filter);
    assert(s.take(i + 1).drop_last() =~= s.take(i));
}

fn in_group_exec(g: &ArgGroup, x: &ArgSpec) -> (r: bool)
    ensures
        r == in_group(*g, *x),
{
    match g {
        ArgGroup::Positionals => !x.hidden && x.positional,
        ArgGroup::Flags => !x.hidden && !x.positional,
        ArgGroup::Globals => x.global && !x.hidden,
    }
}

/// The help form of each argument of `args` in group `g`, in order.
pub fn shown_arguments(args: &Vec<ArgSpec>, g: ArgGroup) -> (r: Vec<HelpArgument>)
    ensures
        describes_all(r@, shown(args@, g)),
{
    let mut out: Vec<HelpArgument> = Vec::new();
    let mut i: usize = 0;
    while i < args.len()
        invariant
            i <= args.len(),
            describes_all(out@, args@.take(i as int).filter(group_pred(g))),
        decreases args.len() - i,
    {
        proof {
            lemma_filter_step(args@, group_pred(g), i as int);
        }
        if in_group_exec(&g, &args[i]) {
            let h = help_argument(&args[i]);
            out.push(h);
        }
        i = i + 1;
    }
    assert(args@.take(args@.len() as int) =~= args@);
    out
}

/// The subcommand listing: each visible subcommand with its visible
/// aliases and its (long, else short) description.
pub fn shown_subcommand_list(subs: &Vec<CommandSpec>) -> (r: Vec<HelpSubcommand>)
    ensures
        r@.len() == shown_subcommands(subs@).len(),
        forall|i: int| 0 <= i < r@.len() ==> lists(#[trigger] r@[i], shown_subcommands(subs@)[i]),
{
    let mut out: Vec<HelpSubcommand> = Vec::new();
    let mut i: usize = 0;
    while i < subs.len()
        invariant
            i <= subs.len(),
            out@.len() == subs@.take(i as int).filter(visible_pred()).len(),
            forall|j: int| 0 <= j < out@.len() ==> lists(#[trigger] out@[j], subs@.take(i as int).filter(visible_pred())[j]),
        decreases subs.len() - i,
    {
        proof {
            lemma_filter_step(subs@, visible_pred(), i as int);
        }
        let c = &subs[i];
        if !c.hidden {
            let h = HelpSubcommand {
                name: copy_string(&c.name),
                aliases: copy_strings(&c.visible_aliases),
                description: preferred_text(&c.long_about, &c.about),
            };
            out.push(h);
        }
        i = i + 1;
    }
    assert(subs@.take(subs@.len() as int) =~= subs@);
    out
}

/// The flags a command's help lists: its own visible flags, then, for a
/// command other than the root, the root's visible global flags.
pub open spec fn listed_flags(root: CommandSpec, command: CommandSpec) -> Seq<ArgSpec> {
    shown(command.args@, ArgGroup::Flags) + if command.name@ != root.name@ {
        shown(root.args@, ArgGroup::Globals)
    } else {
        Seq::<ArgSpec>::empty()
    }
}

/// `d` is the help document for `command` (reached under `root`) at the
/// command path `path`.
pub open spec fn documents(d: HelpDocument, root: CommandSpec, command: CommandSpec, path: Seq<Seq<char>>) -> bool {
    &&& views(d.path@) == path
    &&& d.name@ == command.name@
    &&& opt_view(d.description) == preferred(command.long_about, command.about)
    &&& d.subcommands@.len() == shown_subcommands(command.subcommands@).len()
    &&& forall|i: int| 0 <= i < d.subcommands@.len() ==> lists(#[trigger] d.subcommands@[i], shown_subcommands(command.subcommands@)[i])
    &&& describes_all(d.args@, shown(command.args@, ArgGroup::Positionals))
    &&& describes_all(d.flags@, listed_flags(root, command))
    &&& d.examples@.len() == examples_for(path).len()
    &&& forall|i: int| 0 <= i < d.examples@.len() ==> example_view(#[trigger] d.examples@[i]) == examples_for(path)[i]
}

/// The help document for `command`, reached under `root`, at `path`:
/// description, visible subcommands, positional arguments, flags (with the
/// root's global flags added below the root) and the worked examples.
pub fn help_document(root: &CommandSpec, command: &CommandSpec, path: Vec<String>) -> (r: HelpDocument)
    ensures
        documents(r, *root, *command, views(path@)),
{
    let args = shown_arguments(&command.args, ArgGroup::Positionals);
    let mut flags = shown_arguments(&command.args, ArgGroup::Flags);
    let ghost own = flags@;
    if !str_eq(command.name.as_str(), root.name.as_str()) {
        let mut globals = shown_arguments(&root.args, ArgGroup::Globals);
        let ghost g = globals@;
        flags.append(&mut globals);
        assert(flags@ == own + g);
        assert forall|i: int| 0 <= i < flags@.len() implies describes(#[trigger] flags@[i], listed_flags(*root, *command)[i]) by {
            if i >= own.len() {
                assert(flags@[i] == g[i - own.len()]);
            }
        }
    } else {
        assert(listed_flags(*root, *command) =~= shown(command.args@, ArgGroup::Flags));
    }
    let examples = help_examples(&path);
    HelpDocument {
        path,
        name: copy_string(&command.name),
        description: preferred_text(&command.long_about, &command.about),
        subcommands: shown_subcommand_list(&command.subcommands),
        args,
        flags,
        examples,
    }
}

/// The position of the first subcommand named `name`, or -1.
pub open spec fn index_named(subs: Seq<CommandSpec>, name: Seq<char>) -> int
    decreases subs.len(),
{
    if subs.len() == 0 {
        -1
    } else {
        let k = index_named(subs.drop_last(), name);
        if k >= 0 {
            k
        } else if subs.last().name@ == name {
            subs.len() - 1
        } else {
            -1
        }
    }
}

/// The command that the path `segs` leads to from `c`: each segment
/// descends into the first subcommand of that name; the walk stops at the
/// first segment that names none.
pub open spec fn select(c: CommandSpec, segs: Seq<Seq<char>>) -> CommandSpec
    decreases segs.len(),
{
    if segs.len() == 0 {
        c
    } else {
        let k = index_named(c.subcommands@, segs[0]);
        if k >= 0 {
            select(c.subcommands@[k], segs.drop_first())
        } else {
            c
        }
    }
}

proof fn lemma_index_named_prefix(s: Seq<CommandSpec>, name: Seq<char>, m: int)
    requires
        0 <= m <= s.len(),
        index_named(s.take(m), name) >= 0,
    ensures
        index_named(s, name) == index_named(s.take(m), name),
    decreases s.len(),
{
    if m == s.len() {
        assert(s.take(m) =~= s);
    } else {
        assert(s.drop_last().take(m) =~= s.take(m));
        lemma_index_named_prefix(s.drop_last(), name, m);
    }
}

proof fn lemma_index_named_range(s: Seq<CommandSpec>, name: Seq<char>)
    ensures
        -1 <= index_named(s, name) < s.len(),
        index_named(s, name) >= 0 ==> s[index_named(s, name)].name@ == name,
    decreases s.len(),
{
    if s.len() > 0 {
        lemma_index_named_range(s.drop_last(), name);
    }
}

/// The first subcommand of `subs` named `name`, by position.
fn find_named(subs: &Vec<CommandSpec>, name: &str) -> (r: Option<usize>)
    ensures
        r is Some ==> r->0 == index_named(subs@, name@),
        r is None ==> index_named(subs@, name@) == -1,
{
    let mut j: usize = 0;
    while j < subs.len()
        invariant
            j <= subs.len(),
            index_named(subs@.take(j as int), name@) == -1,
        decreases subs.len() - j,
    {
        assert(subs@.take(j as int + 1).drop_last() =~= subs@.take(j as int));
        if str_eq(subs[j].name.as_str(), name) {
            proof {
                lemma_index_named_prefix(subs@, name@, j as int + 1);
            }
            return Some(j);
        }
        j = j + 1;
    }
    assert(subs@.take(subs@.len() as int) =~= subs@);
    None
}

/// The command that `segments` (a command path without the program name)
/// names under `root`: see `select`.
pub fn select_command<'a>(root: &'a CommandSpec, segments: &Vec<String>) -> (r: &'a CommandSpec)
    ensures
        *r == select(*root, views(segments@)),
{
    let ghost segs = views(segments@);
    let mut selected: &CommandSpec = root;
    let mut i: usize = 0;
    assert(segs.skip(0) =~= segs);
    while i < segments.len()
        invariant
            i <= segments.len(),
            segs == views(segments@),
            select(*root, segs) == select(*selected, segs.skip(i as int)),
        decreases segments.len() - i,
    {
        let ghost rest = segs.skip(i as int);
        assert(rest[0] == segments@[i as int]@);
        match find_named(&selected.subcommands, segments[i].as_str()) {
            Some(k) => {
                proof {
                    lemma_index_named_range(selected.subcommands@, rest[0]);
                    assert(rest.drop_first() =~= segs.skip(i as int + 1));
                }
                selected = &selected.subcommands[k];
            },
            None => {
                return selected;
            },
        }
        i = i + 1;
    }
    assert(segs.skip(i as int) =~= Seq::<Seq<char>>::empty());
    selected
}

/// The help document printed for `--help --json`: the command that the
/// usage path `command_path` names under `root`, documented at the path
/// made of the program name and `command_path`.
pub fn json_help_document(root: &CommandSpec, command_path: &Vec<String>) -> (r: HelpDocument)
    ensures
        documents(r, *root, select(*root, views(command_path@)), seq![root.name@] + views(command_path@)),
{
    let selected = select_command(root, command_path);
    let mut path: Vec<String> = Vec::new();
    path.push(copy_string(&root.name));
    let mut rest = copy_strings(command_path);
    path.append(&mut rest);
    assert(views(path@) =~= seq![root.name@] + views(command_path@));
    help_document(root, selected, path)
}

} // verus!
