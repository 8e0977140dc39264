use std::collections::BTreeSet;

use pengport_adapter_minecraft::parser::{parse_line, PlayerEvent};
use pengport_adapter_minecraft::rcon::parse_list_response;
use regex::Regex;

const PIECES: &[&str] = &[
    "a", "Z", "_", "0", "7", " ", "\u{3000}", "é", "٣", ",", ":", "/", "\n", ".", "-",
    "joined the game", "left the game", "There are ", " of a max of ", " players online",
    "pengport", "ThisNameIsTooLong", "\t", "\r", "[INFO]: ", "4294967295", "99999999999",
];

struct Lcg(u64);

impl Lcg {
    fn next(&mut self) -> u64 {
        self.0 = self.0.wrapping_mul(6364136223846793005).wrapping_add(1442695040888963407);
        self.0 >> 33
    }

    fn pick(&mut self, options: &[&str]) -> String {
        options[(self.next() % options.len() as u64) as usize].to_string()
    }

    fn log_line(&mut self) -> String {
        let mut s = self.text();
        s += &self.pick(&["", "é", " ", "x", "abcdefghijklmnop", "abcdefghijklmnopq", "a_9"]);
        s += &self.pick(&["", " ", "  ", "\u{3000}", "\t", "\n"]);
        s += &self.pick(&["joined the game", "left the game", "joined the games", "left the gamé"]);
        s += &self.text();
        s
    }

    fn list_text(&mut self) -> String {
        let mut s = self.pick(&["", " ", "\n", "noise ", "There are "]);
        s += "There are ";
        s += &self.pick(&["", "0", "12", "٣", "1٣", "4294967295", "4294967296", "007"]);
        s += &self.pick(&["/", " of a max of ", " of a max", "//"]);
        s += &self.pick(&["", "4", "20", "٣", "99999999999"]);
        s += &self.pick(&[" players online", " players", " players online:"]);
        s += &self.pick(&["", ":", " ", "\n", ": a, b", " a,,b , c", "\n\nx\ny", " \u{3000}z ,y"]);
        s += &self.text();
        s
    }

    fn text(&mut self) -> String {
        let n = self.next() % 12;
        (0..n).map(|_| PIECES[(self.next() % PIECES.len() as u64) as usize]).collect()
    }
}

fn regex_line(line: &str, join: &Regex, leave: &Regex) -> Option<PlayerEvent> {
    if let Some(caps) = join.captures(line) {
        return Some(PlayerEvent::Join(caps[1].to_string()));
    }
    if let Some(caps) = leave.captures(line) {
        return Some(PlayerEvent::Leave(caps[1].to_string()));
    }
    None
}

fn regex_list(response: &str, re: &Regex) -> Option<(u32, u32, BTreeSet<String>)> {
    let caps = re.captures(response.trim())?;
    let count: u32 = caps[1].parse().ok()?;
    let max: u32 = caps[2].parse().ok()?;
    let names = caps[3].trim();
    let players: BTreeSet<String> = if names.is_empty() {
        BTreeSet::new()
    } else {
        names.split(',').map(|s| s.trim().to_string()).filter(|s| !s.is_empty()).collect()
    };
    Some((count, max, players))
}

#[test]
fn log_grammar_agrees_with_its_regex() {
    let join = Regex::new(r"\b([A-Za-z0-9_]{1,16})\s+joined the game\b").unwrap();
    let leave = Regex::new(r"\b([A-Za-z0-9_]{1,16})\s+left the game\b").unwrap();
    let mut rng = Lcg(1);
    for _ in 0..20000 {
        let line = if rng.next() % 2 == 0 { rng.text() } else { rng.log_line() };
        assert_eq!(parse_line(&line), regex_line(&line, &join, &leave), "line {line:?}");
    }
}

#[test]
fn list_grammar_agrees_with_its_regex() {
    let re = Regex::new(r"There are (\d+)(?:/| of a max of )(\d+) players online:?\s*(.*)").unwrap();
    let mut rng = Lcg(7);
    for _ in 0..300 {
        let text = if rng.next() % 4 == 0 { rng.text() } else { rng.list_text() };
        let ours = parse_list_response(&text).map(|(c, m, p)| (c, m, p.to_vec().into_iter().collect::<BTreeSet<_>>()));
        assert_eq!(ours, regex_list(&text, &re), "text {text:?}");
    }
}
