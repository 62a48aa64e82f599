//! Output and sizes of every kind, in an order that is the same each time.

use claustre::pty::embedded::EmbeddedTerminal;

/// Numbers that look random.
struct Numbers(u64);

impl Numbers {
    fn below(&mut self, n: u64) -> u64 {
        self.0 = self.0.wrapping_mul(6_364_136_223_846_793_005).wrapping_add(1_442_695_040_888_963_407);
        (self.0 >> 33) % n
    }

    fn pick<'a>(&mut self, from: &[&'a str]) -> &'a str {
        from[self.below(from.len() as u64) as usize]
    }
}

/// A piece of what a program may put out.
fn piece(n: &mut Numbers) -> Vec<u8> {
    let moves = ["A", "B", "C", "D", "E", "F", "G", "H", "d", "e", "f", "r", "J", "K", "m"];
    let edits = ["L", "M", "P", "S", "T", "X", "@", "s", "u"];
    let modes = ["6", "7", "25", "47", "1047", "1048", "1049", "1000", "1006", "2004"];
    let text = match n.below(10) {
        0 => n.pick(&["\u{65e5}\u{65e5}", "\u{17d8}", "\u{17d8}\u{301}"]).to_string(),
        1 => "e\u{301}x".to_string(),
        2 => "hello \t".to_string(),
        3 => n.pick(&["\r\n", "\x08", "\x0b", "\x0c", "\x0e", "\x18", "\x1b", "\x1b["]).to_string(),
        4 => n.pick(&["\x1b7", "\x1b8", "\x1bM", "\x1bc", "\x1b=", "\x1b>"]).to_string(),
        5 => format!("\x1b[?{}{}", n.pick(&modes), n.pick(&["h", "l"])),
        6 | 7 => {
            let a = n.pick(&["", "0", "1", "2", "5", "40", "65535"]);
            let b = n.pick(&["", ";0", ";1", ";3", ";40", ";65535"]);
            format!("\x1b[{a}{b}{}", n.pick(&moves))
        }
        8 => format!("\x1b[{}{}", n.pick(&["", "0", "1", "3", "90"]), n.pick(&edits)),
        _ => return vec![n.below(256) as u8],
    };
    text.into_bytes()
}

fn stress(seed: u64, most: u64) {
    let mut n = Numbers(seed);
    for _ in 0..60 {
        let size = |n: &mut Numbers| (2 + n.below(most) as u16, 3 + n.below(most) as u16);
        let (rows, cols) = size(&mut n);
        let mut term = EmbeddedTerminal::new(rows, cols);
        for _ in 0..60 {
            for _ in 0..n.below(30) {
                term.receive(piece(&mut n));
            }
            term.process_output();
            assert!(term.scrollback() <= term.available_scrollback);
            term.scroll_up(3);
            if n.below(2) == 0 {
                let (rows, cols) = size(&mut n);
                term.resize(rows, cols);
                assert_eq!(term.screen().size(), (rows, cols));
                assert_eq!(term.scrollback(), 0);
            }
        }
    }
}

#[test]
fn small_terminals_take_in_anything() {
    for seed in 0..6 {
        stress(seed, 6);
    }
}

#[test]
fn large_terminals_take_in_anything() {
    for seed in 100..104 {
        stress(seed, 40);
    }
}
