use iridium::repl::{ReplAction, TestSystemOperations, REPL};
use iridium::vm::{Fault, Signal};

#[test]
fn test_main_loop() {
    let mut repl = REPL::new();
    repl.run_once(&mut TestSystemOperations::new("load $0 #3"));
    assert_eq!(repl.get_register(0), 3);
}

#[test]
fn line_is_trimmed_before_it_is_taken() {
    let mut repl = REPL::new();
    let action = repl.run_once(&mut TestSystemOperations::new(" \t.quit \r\n"));
    assert_eq!(action, ReplAction::Quit);
    assert_eq!(repl.history(), &vec![".quit".to_string()]);
    // Untrimmed, the same text is no command but a program of one directive.
    assert_eq!(repl.execute(" \t.quit \r\n"), ReplAction::Executed(Signal::Halted));
}

#[test]
fn commands_are_answered_by_their_actions() {
    let mut repl = REPL::new();
    assert_eq!(repl.execute(".program"), ReplAction::ListProgram);
    assert_eq!(repl.execute(".registers"), ReplAction::ListRegisters);
    assert_eq!(repl.execute(".history"), ReplAction::ListHistory);
    assert_eq!(repl.execute(".load_file"), ReplAction::LoadFile);
    assert_eq!(repl.execute(".quit"), ReplAction::Quit);
    assert_eq!(repl.vm().program_len(), 0);
    assert_eq!(
        repl.history(),
        &vec![
            ".program".to_string(),
            ".registers".to_string(),
            ".history".to_string(),
            ".load_file".to_string(),
            ".quit".to_string()
        ]
    );
}

#[test]
fn assembly_text_is_loaded_and_one_cycle_runs() {
    let mut repl = REPL::new();
    assert_eq!(repl.execute("load $1 #500"), ReplAction::Executed(Signal::Continue));
    assert_eq!(repl.execute("inc $1\ninc $1"), ReplAction::Executed(Signal::Continue));
    assert_eq!(repl.get_register(1), 501);
    assert_eq!(repl.vm().program_len(), 12);
    assert_eq!(repl.vm().pc(), 8);
    assert_eq!(repl.execute("hlt"), ReplAction::Executed(Signal::Continue));
    assert_eq!(repl.get_register(1), 502);
    assert_eq!(repl.execute(".history"), ReplAction::ListHistory);
    assert_eq!(repl.execute("hlt"), ReplAction::Executed(Signal::Halted));
}

#[test]
fn hexadecimal_is_loaded_and_one_cycle_runs() {
    let mut repl = REPL::new();
    assert_eq!(repl.execute("00 01 03 E8"), ReplAction::Executed(Signal::Continue));
    assert_eq!(repl.get_register(1), 1000);
    assert_eq!(repl.execute("ff 0 0 0"), ReplAction::Executed(Signal::Faulted(Fault::IllegalInstruction)));
    assert_eq!(repl.vm().program, vec![0, 1, 3, 232, 255, 0, 0, 0]);
}

#[test]
fn line_that_is_no_code_changes_no_code() {
    let mut repl = REPL::new();
    assert_eq!(repl.execute("load $0 #1\nload $0 #2"), ReplAction::Executed(Signal::Continue));
    assert_eq!(repl.execute("zz top"), ReplAction::Undecodable(Signal::Continue));
    assert_eq!(repl.get_register(0), 2);
    assert_eq!(repl.execute("jmp @nowhere"), ReplAction::Undecodable(Signal::Halted));
    assert_eq!(repl.execute(""), ReplAction::Undecodable(Signal::Halted));
    assert_eq!(repl.vm().program_len(), 8);
}

#[test]
fn clear_forgets_the_code() {
    let mut repl = REPL::new();
    repl.execute("load $0 #1");
    assert_eq!(repl.execute(".clear"), ReplAction::Cleared);
    assert_eq!(repl.vm().program_len(), 0);
    assert_eq!(repl.vm().pc(), 0);
    assert_eq!(repl.get_register(0), 1);
    assert_eq!(repl.execute("load $0 #2"), ReplAction::Executed(Signal::Continue));
    assert_eq!(repl.get_register(0), 2);
}

#[test]
fn groups_of_hexadecimal_digits_are_bytes() {
    let mut repl = REPL::new();
    assert_eq!(repl.parse_hex("0A ff 7 +10 000001"), Ok(vec![10, 255, 7, 16, 1]));
    assert_eq!(repl.parse_hex("00"), Ok(vec![0]));
    assert!(repl.parse_hex("").is_err());
    assert!(repl.parse_hex("0A  ff").is_err());
    assert!(repl.parse_hex("0A ").is_err());
    assert!(repl.parse_hex(" 0A").is_err());
    assert!(repl.parse_hex("100").is_err());
    assert!(repl.parse_hex("0x10").is_err());
    assert!(repl.parse_hex("-1").is_err());
    assert!(repl.parse_hex("+").is_err());
    assert!(repl.parse_hex("1g").is_err());
}

#[test]
fn source_is_loaded_without_running() {
    let mut repl = REPL::new();
    assert!(repl.load_source("load $0 #1\nload $1 #2\nhlt\n"));
    assert_eq!(repl.vm().program_len(), 12);
    assert_eq!(repl.vm().pc(), 0);
    assert!(!repl.load_source("load $0 #1\nwhat"));
    assert!(!repl.load_source("jmp @somewhere"));
    assert_eq!(repl.vm().program_len(), 12);
    assert_eq!(REPL::source_bytes(".code\ninc $3"), Some(vec![17, 3, 0, 0]));
    assert_eq!(REPL::source_bytes("17 3 0 0"), None);
}
