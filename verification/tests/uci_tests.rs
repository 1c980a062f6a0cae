use eschec::components::Side;
use eschec::uci_parser::think_time;
use eschec::uci_parser::{parse_line, GoParams, UciCommand};

#[test]
fn parses_simple_commands() {
    assert_eq!(parse_line("uci"), UciCommand::Uci);
    assert_eq!(parse_line("  isready \n"), UciCommand::IsReady);
    assert_eq!(parse_line("ucinewgame"), UciCommand::UciNewGame);
    assert_eq!(parse_line("stop"), UciCommand::Stop);
    assert_eq!(parse_line("quit"), UciCommand::Quit);
    assert_eq!(parse_line("   "), UciCommand::Unknown("   ".to_string()));
    assert_eq!(parse_line("hello there"), UciCommand::Unknown("hello there".to_string()));
}

#[test]
fn parses_position_commands() {
    assert_eq!(
        parse_line("position startpos moves e2e4 e7e5"),
        UciCommand::Position { startpos: true, fen: None, moves: vec!["e2e4".to_string(), "e7e5".to_string()] }
    );
    assert_eq!(
        parse_line("position fen 8/8/8/8/8/8/8/K6k w - - 0 1 moves a1a2"),
        UciCommand::Position {
            startpos: false,
            fen: Some("8/8/8/8/8/8/8/K6k w - - 0 1".to_string()),
            moves: vec!["a1a2".to_string()],
        }
    );
    assert_eq!(parse_line("position startpos"), UciCommand::Position { startpos: true, fen: None, moves: vec![] });
}

#[test]
fn parses_go_commands() {
    assert_eq!(
        parse_line("go wtime 1000 btime 2000 winc 10 binc 20 movestogo 30 depth 7"),
        UciCommand::Go(GoParams {
            wtime: Some(1000),
            btime: Some(2000),
            winc: Some(10),
            binc: Some(20),
            moves_to_go: Some(30),
            depth: Some(7),
            infinite: false,
        })
    );
    assert_eq!(parse_line("go infinite"), UciCommand::Go(GoParams { infinite: true, ..Default::default() }));
    assert_eq!(parse_line("go depth abc"), UciCommand::Go(GoParams::default()));
    assert_eq!(parse_line("go depth 70000"), UciCommand::Go(GoParams::default()));
    assert_eq!(parse_line("go wtime +5"), UciCommand::Go(GoParams { wtime: Some(5), ..Default::default() }));
    assert_eq!(parse_line("go wtime"), UciCommand::Go(GoParams::default()));
}

#[test]
fn parses_setoption_commands() {
    assert_eq!(
        parse_line("setoption name Hash value 64"),
        UciCommand::SetOption { name: "Hash".to_string(), value: "64".to_string() }
    );
    assert_eq!(
        parse_line("setoption name Clear Hash"),
        UciCommand::SetOption { name: "Clear Hash".to_string(), value: String::new() }
    );
}

#[test]
fn think_time_sudden_death_and_moves_to_go() {
    let p = GoParams { wtime: Some(60_000), btime: Some(30_000), winc: Some(1_000), ..Default::default() };
    assert_eq!(think_time(&p, Side::White), Some(3_000));
    assert_eq!(think_time(&p, Side::Black), Some(1_000));
    let q = GoParams { wtime: Some(10_000), moves_to_go: Some(20), ..Default::default() };
    assert_eq!(think_time(&q, Side::White), Some(450));
    let short = GoParams { wtime: Some(1_000), moves_to_go: Some(40), ..Default::default() };
    assert_eq!(think_time(&short, Side::White), Some(50));
    assert_eq!(think_time(&GoParams::default(), Side::White), None);
}
