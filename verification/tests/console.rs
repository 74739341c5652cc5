use richter::console::cmdline::CmdLine;
use richter::console::cvars::CvarRegistry;
use richter::console::input::{ConsoleInput, ConsoleOutput, History};
use richter::console::parse::{
    arg, basic_arg, command, commands, empty_line, line_comment, quoted, ParseError,
};
use richter::console::tokenizer::Tokenizer;
use richter::console::shell::{Console, ExecStep};
use richter::console::ConsoleError;

#[test]
fn test_tokenizer_empty() {
    let mut tokenizer = Tokenizer::new("");
    assert_eq!(tokenizer.next(), None);
}

#[test]
fn test_tokenizer_whitespace_only() {
    let mut tokenizer = Tokenizer::new(" \t\n\r");
    assert_eq!(tokenizer.next(), None);
}

#[test]
fn test_tokenizer_comment_only() {
    let mut tokenizer = Tokenizer::new("// this is a comment");
    assert_eq!(tokenizer.next(), None);
}

#[test]
fn tokenizer_splits_words() {
    let mut tokenizer = Tokenizer::new("map e1m1");
    assert_eq!(tokenizer.next(), Some(String::from("map")));
    assert_eq!(tokenizer.next(), Some(String::from("e1m1")));
    assert_eq!(tokenizer.next(), None);
}

#[test]
fn tokenizer_reads_quotes_and_skips_comments() {
    let mut tokenizer = Tokenizer::new("bind \"k p\" // note\n  +jump");
    assert_eq!(tokenizer.next(), Some(String::from("bind")));
    assert_eq!(tokenizer.next(), Some(String::from("k p")));
    assert_eq!(tokenizer.next(), Some(String::from("+jump")));
    assert_eq!(tokenizer.next(), None);
}

#[test]
fn tokenizer_unclosed_quote_panics_in_reading() {
    let tokenizer = Tokenizer::new("say \"hello");
    assert!(!tokenizer.next_panics());
    let mut tokenizer = tokenizer;
    assert_eq!(tokenizer.next(), Some(String::from("say")));
    assert!(tokenizer.next_panics());
}

#[test]
fn cvar_register_get_set() {
    let mut cvars = CvarRegistry::new();
    assert_eq!(cvars.register("sv_gravity", "800"), Ok(()));
    assert!(cvars.contains("sv_gravity"));
    assert_eq!(cvars.get("sv_gravity"), Ok(String::from("800")));
    assert_eq!(cvars.set("sv_gravity", "100"), Ok(false));
    assert_eq!(cvars.get("sv_gravity"), Ok(String::from("100")));
}

#[test]
fn cvar_duplicate_and_missing() {
    let mut cvars = CvarRegistry::new();
    cvars.register_archive("name", "player").unwrap();
    assert_eq!(
        cvars.register("name", "other"),
        Err(ConsoleError::DuplicateCvar(String::from("name")))
    );
    assert_eq!(cvars.get("name"), Ok(String::from("player")));
    assert_eq!(cvars.get("nope"), Err(ConsoleError::NoSuchCvar(String::from("nope"))));
    assert_eq!(cvars.set("nope", "1"), Err(ConsoleError::NoSuchCvar(String::from("nope"))));
    assert!(!cvars.contains("nope"));
}

#[test]
fn console_input_editing() {
    let mut input = ConsoleInput::new();
    input.insert('a');
    input.insert('c');
    input.cursor_left();
    input.insert('b');
    assert_eq!(input.get_text(), vec!['a', 'b', 'c']);
    assert_eq!(input.debug_string(), String::from("ab_c"));
    input.backspace();
    assert_eq!(input.get_text(), vec!['a', 'c']);
    input.delete();
    assert_eq!(input.get_text(), vec!['a']);
    input.delete();
    assert_eq!(input.get_text(), vec!['a']);
    input.set_text(&vec!['x', 'y']);
    input.insert('z');
    assert_eq!(input.get_text(), vec!['x', 'y', 'z']);
    input.clear();
    assert_eq!(input.get_text(), Vec::<char>::new());
    assert_eq!(input.debug_string(), String::from("_"));
}

#[test]
fn history_browse() {
    let mut hist = History::new();
    assert_eq!(hist.line_up(), None);
    hist.add_line(vec!['a']);
    hist.add_line(vec!['b']);
    assert_eq!(hist.line_up(), Some(vec!['b']));
    assert_eq!(hist.line_up(), Some(vec!['a']));
    assert_eq!(hist.line_up(), None);
    assert_eq!(hist.line_down(), Some(vec!['b']));
    assert_eq!(hist.line_down(), Some(vec![]));
}

#[test]
fn console_output_newest_first() {
    let mut out = ConsoleOutput::new();
    out.push(vec!['o', 'n', 'e'], None);
    out.push(vec!['t', 'w', 'o'], Some(5));
    assert_eq!(out.lines(), vec![vec!['t', 'w', 'o'], vec!['o', 'n', 'e']]);
}

fn pair(rest: &str, matched: &str) -> Result<(String, String), ParseError> {
    Ok((String::from(rest), String::from(matched)))
}

#[test]
fn test_quoted() {
    let s = "\"hello\"";
    assert_eq!(quoted(s), pair("", "hello"))
}

#[test]
fn test_line_comment() {
    let result = line_comment("// a comment\nnext line");
    assert_eq!(result, pair("\nnext line", "// a comment"));
}

#[test]
fn test_empty_line() {
    let result = empty_line("  \t \t // a comment\nnext line");
    assert_eq!(result, pair("next line", "  \t \t // a comment\n"));
}

#[test]
fn test_basic_arg_space_terminated() {
    let result = basic_arg("space_terminated ");
    assert_eq!(result, pair(" ", "space_terminated"));
}

#[test]
fn test_basic_arg_newline_terminated() {
    let result = basic_arg("newline_terminated\n");
    assert_eq!(result, pair("\n", "newline_terminated"));
}

#[test]
fn test_basic_arg_semicolon_terminated() {
    let result = basic_arg("semicolon_terminated;");
    assert_eq!(result, pair(";", "semicolon_terminated"));
}

#[test]
fn test_arg_basic() {
    let result = arg("basic_arg \t;");
    assert_eq!(result, pair(" \t;", "basic_arg"));
}

#[test]
fn test_quoted_arg() {
    let result = arg("\"quoted \\\"argument\\\"\";\n");
    assert_eq!(result, pair(";\n", "quoted \"argument\""));
}

fn strings(l: &[&str]) -> Vec<String> {
    l.iter().map(|s| String::from(*s)).collect()
}

#[test]
fn test_command_basic() {
    let result = command("arg_0 arg_1;\n");
    assert_eq!(result, Ok((String::from("\n"), strings(&["arg_0", "arg_1"]))));
}

#[test]
fn test_command_quoted() {
    let result = command("bind \"space\" \"+jump\";\n");
    assert_eq!(result, Ok((String::from("\n"), strings(&["bind", "space", "+jump"]))));
}

#[test]
fn test_command_comment() {
    let result = command("bind \"space\" \"+jump\" // bind space to jump\n\n");
    assert_eq!(result, Ok((String::from("\n"), strings(&["bind", "space", "+jump"]))));
}

#[test]
fn test_commands_quake_rc() {
    let script = "
// load the base configuration
exec default.cfg

// load the last saved configuration
exec config.cfg

// run a user script file if present
exec autoexec.cfg

//
// stuff command line statements
//
stuffcmds

// start demos if not already running a server
startdemos demo1 demo2 demo3
";
    let expected = vec![
        strings(&["exec", "default.cfg"]),
        strings(&["exec", "config.cfg"]),
        strings(&["exec", "autoexec.cfg"]),
        strings(&["stuffcmds"]),
        strings(&["startdemos", "demo1", "demo2", "demo3"]),
    ];

    let result = commands(script);
    assert_eq!(result, Ok((String::new(), expected)));
}

#[test]
fn parse_rejects() {
    assert_eq!(basic_arg(";x"), Err(ParseError));
    assert_eq!(quoted("\"\""), Err(ParseError));
    assert_eq!(line_comment("/ x"), Err(ParseError));
    assert_eq!(command(";"), Err(ParseError));
}

fn out_lines(c: &Console) -> Vec<String> {
    c.output().lines().into_iter().map(|l| l.into_iter().collect()).collect()
}

fn run_all(c: &mut Console, cmds: &Vec<String>) -> Vec<(String, Vec<String>)> {
    let mut ran = Vec::new();
    c.execute();
    loop {
        match c.execute_step(cmds) {
            ExecStep::Run(name, args) => ran.push((name, args)),
            ExecStep::Announce(name, value) => ran.push((String::from("announce"), vec![name, value])),
            ExecStep::ListAliases(_) | ExecStep::Continue => (),
            ExecStep::Done => return ran,
        }
    }
}

#[test]
fn console_runs_typed_lines() {
    let mut cvars = CvarRegistry::new();
    cvars.register("sv_gravity", "800").unwrap();
    let mut c = Console::new(cvars);
    for ch in "echo hi".chars() {
        c.send_char(ch);
    }
    assert_eq!(c.debug_string(), "echo hi_");
    c.send_char('\r');
    assert_eq!(c.get_string(), "");
    assert_eq!(out_lines(&c), vec!["]echo hi".to_owned()]);
    let cmds = vec!["map".to_owned()];
    assert!(run_all(&mut c, &cmds).is_empty());
    assert_eq!(out_lines(&c), vec!["hi".to_owned(), "]echo hi".to_owned()]);

    c.stuff_text("sv_gravity 100; sv_gravity; map e1m1; bogus");
    let ran = run_all(&mut c, &cmds);
    assert_eq!(ran, vec![("map".to_owned(), vec!["e1m1".to_owned()])]);
    assert_eq!(c.cvars().get("sv_gravity"), Ok("100".to_owned()));
    let lines = out_lines(&c);
    assert_eq!(lines[0], "Unrecognized command \"bogus\"");
    assert_eq!(lines[1], "\"sv_gravity\" is \"100\"");
}

#[test]
fn console_aliases_and_history() {
    let mut c = Console::new(CvarRegistry::new());
    c.stuff_text("alias greet \"echo hello\"");
    let cmds = Vec::new();
    run_all(&mut c, &cmds);
    c.stuff_text("greet");
    run_all(&mut c, &cmds);
    assert_eq!(out_lines(&c), vec!["hello".to_owned()]);
    c.stuff_text("alias");
    c.execute();
    match c.execute_step(&cmds) {
        ExecStep::ListAliases(l) => assert_eq!(l, vec![("greet".to_owned(), "echo hello".to_owned())]),
        other => panic!("{:?}", other),
    }

    for ch in "first".chars() {
        c.send_char(ch);
    }
    c.send_char('\r');
    c.history_up();
    assert_eq!(c.get_string(), "first");
    assert_eq!(c.cursor(), 5);
    c.history_down();
    assert_eq!(c.get_string(), "");
    c.print("partial");
    c.println(" line");
    assert_eq!(out_lines(&c)[0], "partial line");
}

#[test]
fn console_recent_lines() {
    let mut c = Console::new(CvarRegistry::new());
    c.println_alert("old", 100);
    c.println_alert("fresh", 1000);
    c.println("untimed");
    let recent = c.output().recent_lines(60, 10, 10, 1030);
    assert_eq!(recent, vec!["fresh".chars().collect::<Vec<char>>()]);
    assert_eq!(c.output().recent_lines(2000, 10, 10, 1030).len(), 2);
    assert!(c.output().recent_lines(-100, 10, 10, 1000).is_empty());
    let mut out = ConsoleOutput::new();
    out.push("a".chars().collect(), Some(5));
    out.push("b".chars().collect(), Some(10));
    out.push("c".chars().collect(), None);
    out.push("d".chars().collect(), Some(20));
    let got: Vec<String> = out.recent_lines_since(6, 3, 5).into_iter().map(|l| l.into_iter().collect()).collect();
    assert_eq!(got, vec!["b".to_owned(), "d".to_owned()]);
    let got: Vec<String> = out.recent_lines_since(0, 10, 1).into_iter().map(|l| l.into_iter().collect()).collect();
    assert_eq!(got, vec!["a".to_owned()]);
}

#[test]
fn cmdline_edits_at_the_cursor() {
    let mut c = CmdLine::new();
    for ch in "helo".chars() {
        c.insert(ch);
    }
    c.cursor_left();
    c.insert('l');
    assert_eq!(c.get_string(), "hello");
    assert_eq!(c.debug_string(), "hell_o");
    c.delete();
    assert_eq!(c.get_string(), "hell");
    c.backspace();
    assert_eq!(c.debug_string(), "hel_");
    c.cursor_right();
    assert_eq!(c.debug_string(), "hel_");
    for _ in 0..5 {
        c.cursor_left();
    }
    c.backspace();
    c.delete();
    assert_eq!(c.debug_string(), "_el");
}

#[test]
fn tokenizer_remaining_input() {
    let mut t = Tokenizer::new("bind x  \"say hi\"");
    assert_eq!(t.get_remaining_input(), "bind x  \"say hi\"");
    assert_eq!(t.next().as_deref(), Some("bind"));
    assert_eq!(t.get_remaining_input(), " x  \"say hi\"");
}

#[test]
fn notify_cvar_change_is_announced() {
    let mut cvars = CvarRegistry::new();
    cvars.register_notify("name", "player").unwrap();
    assert_eq!(cvars.set("name", "ranger"), Ok(true));
    assert_eq!(cvars.get("name"), Ok(String::from("ranger")));
    let mut c = Console::new(cvars);
    c.stuff_text("name fiend");
    let ran = run_all(&mut c, &Vec::new());
    assert_eq!(ran, vec![(String::from("announce"), vec![String::from("name"), String::from("fiend")])]);
    assert_eq!(c.cvars().get("name"), Ok(String::from("fiend")));
}
