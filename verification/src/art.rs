//! The pictures of the animation: the trains, their cars, the people on
//! board, the smoke, and the way a smoke puff moves. Each picture is given
//! twice: as text for the contracts and as string literals for the code.
use vstd::prelude::*;
use vstd::string::*;
use vstd::utf8::*;

verus! {

/// The characters of each line of a picture.
pub open spec fn text_of(lines: Seq<&str>) -> Seq<Seq<char>> {
    lines.map_values(|l: &str| l@)
}

/// Every line of a picture is ASCII.
pub open spec fn all_ascii(lines: Seq<Seq<char>>) -> bool {
    forall|i: int| 0 <= i < lines.len() ==> #[trigger] is_ascii_chars(lines[i])
}

/// The upper body of the D51, seven lines.
#[verifier::opaque]
pub open spec fn d51_body_text() -> Seq<Seq<char>> {
    seq![
        "      ====        ________                ___________ "@,
        r#"  _D _|  |_______/        \__I_I_____===__|_________| "#@,
        r#"   |(_)---  |   H\________/ |   |        =|___ ___|   "#@,
        "   /     |  |   H  |  |     |   |         ||_| |_||   "@,
        "  |      |  |   H  |__--------------------| [___] |   "@,
        r#"  | ________|___H__/__|_____/[][]~\_______|       |   "#@,
        "  |/ |   |-----------I_____I [][] []  D   |=======|__ "@,
    ]
}

/// The upper body of the D51, seven lines.
pub fn d51_body() -> (lines: [&'static str; 7])
    ensures
        text_of(lines@) == d51_body_text(),
        forall|i: int| 0 <= i < 7 ==> (#[trigger] lines@[i]).is_ascii(),
{
    proof {
        lemma_d51_ascii();
        reveal(d51_body_text);
    }
    let lines = [
        "      ====        ________                ___________ ",
        r#"  _D _|  |_______/        \__I_I_____===__|_________| "#,
        r#"   |(_)---  |   H\________/ |   |        =|___ ___|   "#,
        "   /     |  |   H  |  |     |   |         ||_| |_||   ",
        "  |      |  |   H  |__--------------------| [___] |   ",
        r#"  | ________|___H__/__|_____/[][]~\_______|       |   "#,
        "  |/ |   |-----------I_____I [][] []  D   |=======|__ ",
    ];
    assert(text_of(lines@) =~= d51_body_text());
    assert forall|i: int| 0 <= i < 7 implies (#[trigger] lines@[i]).is_ascii() by {
        assert(lines@[i]@ == d51_body_text()[i]);
    }
    lines
}

/// The wheels of the D51 in animation pattern `p`, three lines.
#[verifier::opaque]
pub open spec fn d51_wheels_text(p: int) -> Seq<Seq<char>> {
    if p == 0 {
        seq![
            r#"__/ =| o |=-~~\  /~~\  /~~\  /~~\ ____Y___________|__ "#@,
            r#" |/-=|___|=    ||    ||    ||    |_____/~\___/        "#@,
            r#"  \_/      \O=====O=====O=====O_/      \_/            "#@,
        ]
    } else if p == 1 {
        seq![
            r#"__/ =| o |=-~~\  /~~\  /~~\  /~~\ ____Y___________|__ "#@,
            r#" |/-=|___|=O=====O=====O=====O   |_____/~\___/        "#@,
            r#"  \_/      \__/  \__/  \__/  \__/      \_/            "#@,
        ]
    } else if p == 2 {
        seq![
            r#"__/ =| o |=-O=====O=====O=====O \ ____Y___________|__ "#@,
            r#" |/-=|___|=    ||    ||    ||    |_____/~\___/        "#@,
            r#"  \_/      \__/  \__/  \__/  \__/      \_/            "#@,
        ]
    } else if p == 3 {
        seq![
            r#"__/ =| o |=-~O=====O=====O=====O\ ____Y___________|__ "#@,
            r#" |/-=|___|=    ||    ||    ||    |_____/~\___/        "#@,
            r#"  \_/      \__/  \__/  \__/  \__/      \_/            "#@,
        ]
    } else if p == 4 {
        seq![
            r#"__/ =| o |=-~~\  /~~\  /~~\  /~~\ ____Y___________|__ "#@,
            r#" |/-=|___|=   O=====O=====O=====O|_____/~\___/        "#@,
            r#"  \_/      \__/  \__/  \__/  \__/      \_/            "#@,
        ]
    } else {
        seq![
            r#"__/ =| o |=-~~\  /~~\  /~~\  /~~\ ____Y___________|__ "#@,
            r#" |/-=|___|=    ||    ||    ||    |_____/~\___/        "#@,
            r#"  \_/      \_O=====O=====O=====O/      \_/            "#@,
        ]
    }
}

/// The wheels of the D51 in animation pattern `p`, three lines.
pub fn d51_wheels(p: usize) -> (lines: [&'static str; 3])
    requires
        p < 6,
    ensures
        text_of(lines@) == d51_wheels_text(p as int),
        forall|i: int| 0 <= i < 3 ==> (#[trigger] lines@[i]).is_ascii(),
{
    proof {
        lemma_d51_ascii();
        reveal(d51_wheels_text);
    }
    match p {
        0 => {
            let lines = [
                r#"__/ =| o |=-~~\  /~~\  /~~\  /~~\ ____Y___________|__ "#,
                r#" |/-=|___|=    ||    ||    ||    |_____/~\___/        "#,
                r#"  \_/      \O=====O=====O=====O_/      \_/            "#,
            ];
            assert(text_of(lines@) =~= d51_wheels_text(0));
            assert(all_ascii(d51_wheels_text(0)));
            assert forall|i: int| 0 <= i < 3 implies (#[trigger] lines@[i]).is_ascii() by {
                assert(lines@[i]@ == d51_wheels_text(0)[i]);
            }
            lines
        },
        1 => {
            let lines = [
                r#"__/ =| o |=-~~\  /~~\  /~~\  /~~\ ____Y___________|__ "#,
                r#" |/-=|___|=O=====O=====O=====O   |_____/~\___/        "#,
                r#"  \_/      \__/  \__/  \__/  \__/      \_/            "#,
            ];
            assert(text_of(lines@) =~= d51_wheels_text(1));
            assert(all_ascii(d51_wheels_text(1)));
            assert forall|i: int| 0 <= i < 3 implies (#[trigger] lines@[i]).is_ascii() by {
                assert(lines@[i]@ == d51_wheels_text(1)[i]);
            }
            lines
        },
        2 => {
            let lines = [
                r#"__/ =| o |=-O=====O=====O=====O \ ____Y___________|__ "#,
                r#" |/-=|___|=    ||    ||    ||    |_____/~\___/        "#,
                r#"  \_/      \__/  \__/  \__/  \__/      \_/            "#,
            ];
            assert(text_of(lines@) =~= d51_wheels_text(2));
            assert(all_ascii(d51_wheels_text(2)));
            assert forall|i: int| 0 <= i < 3 implies (#[trigger] lines@[i]).is_ascii() by {
                assert(lines@[i]@ == d51_wheels_text(2)[i]);
            }
            lines
        },
        3 => {
            let lines = [
                r#"__/ =| o |=-~O=====O=====O=====O\ ____Y___________|__ "#,
                r#" |/-=|___|=    ||    ||    ||    |_____/~\___/        "#,
                r#"  \_/      \__/  \__/  \__/  \__/      \_/            "#,
            ];
            assert(text_of(lines@) =~= d51_wheels_text(3));
            assert(all_ascii(d51_wheels_text(3)));
            assert forall|i: int| 0 <= i < 3 implies (#[trigger] lines@[i]).is_ascii() by {
                assert(lines@[i]@ == d51_wheels_text(3)[i]);
            }
            lines
        },
        4 => {
            let lines = [
                r#"__/ =| o |=-~~\  /~~\  /~~\  /~~\ ____Y___________|__ "#,
                r#" |/-=|___|=   O=====O=====O=====O|_____/~\___/        "#,
                r#"  \_/      \__/  \__/  \__/  \__/      \_/            "#,
            ];
            assert(text_of(lines@) =~= d51_wheels_text(4));
            assert(all_ascii(d51_wheels_text(4)));
            assert forall|i: int| 0 <= i < 3 implies (#[trigger] lines@[i]).is_ascii() by {
                assert(lines@[i]@ == d51_wheels_text(4)[i]);
            }
            lines
        },
        _ => {
            let lines = [
                r#"__/ =| o |=-~~\  /~~\  /~~\  /~~\ ____Y___________|__ "#,
                r#" |/-=|___|=    ||    ||    ||    |_____/~\___/        "#,
                r#"  \_/      \_O=====O=====O=====O/      \_/            "#,
            ];
            assert(text_of(lines@) =~= d51_wheels_text(5));
            assert(all_ascii(d51_wheels_text(5)));
            assert forall|i: int| 0 <= i < 3 implies (#[trigger] lines@[i]).is_ascii() by {
                assert(lines@[i]@ == d51_wheels_text(5)[i]);
            }
            lines
        },
    }
}

/// The coal car behind the D51, eleven lines.
#[verifier::opaque]
pub open spec fn d51_coal_text() -> Seq<Seq<char>> {
    seq![
        "                              "@,
        "                              "@,
        "    _________________         "@,
        r#"   _|                \_____A  "#@,
        " =|                        |  "@,
        " -|                        |  "@,
        "__|________________________|_ "@,
        "|__________________________|_ "@,
        "   |_D__D__D_|  |_D__D__D_|   "@,
        r#"    \_/   \_/    \_/   \_/    "#@,
        "                              "@,
    ]
}

/// The coal car behind the D51, eleven lines.
pub fn d51_coal() -> (lines: [&'static str; 11])
    ensures
        text_of(lines@) == d51_coal_text(),
        forall|i: int| 0 <= i < 11 ==> (#[trigger] lines@[i]).is_ascii(),
{
    proof {
        lemma_d51_ascii();
        reveal(d51_coal_text);
    }
    let lines = [
        "                              ",
        "                              ",
        "    _________________         ",
        r#"   _|                \_____A  "#,
        " =|                        |  ",
        " -|                        |  ",
        "__|________________________|_ ",
        "|__________________________|_ ",
        "   |_D__D__D_|  |_D__D__D_|   ",
        r#"    \_/   \_/    \_/   \_/    "#,
        "                              ",
    ];
    assert(text_of(lines@) =~= d51_coal_text());
    assert forall|i: int| 0 <= i < 11 implies (#[trigger] lines@[i]).is_ascii() by {
        assert(lines@[i]@ == d51_coal_text()[i]);
    }
    lines
}

/// The upper body of the C51, seven lines.
#[verifier::opaque]
pub open spec fn c51_body_text() -> Seq<Seq<char>> {
    seq![
        "        ___                                            "@,
        "       _|_|_  _     __       __             ___________"@,
        r#"    D__/   \_(_)___|  |__H__|  |_____I_Ii_()|_________|"#@,
        "     | `---'   |:: `--'  H  `--'         |  |___ ___|  "@,
        "    +|~~~~~~~~++::~~~~~~~H~~+=====+~~~~~~|~~||_| |_||  "@,
        "    ||        | ::       H  +=====+      |  |::  ...|  "@,
        "|    | _______|_::-----------------[][]-----|       |  "@,
    ]
}

/// The upper body of the C51, seven lines.
pub fn c51_body() -> (lines: [&'static str; 7])
    ensures
        text_of(lines@) == c51_body_text(),
        forall|i: int| 0 <= i < 7 ==> (#[trigger] lines@[i]).is_ascii(),
{
    proof {
        lemma_c51_ascii();
        reveal(c51_body_text);
    }
    let lines = [
        "        ___                                            ",
        "       _|_|_  _     __       __             ___________",
        r#"    D__/   \_(_)___|  |__H__|  |_____I_Ii_()|_________|"#,
        "     | `---'   |:: `--'  H  `--'         |  |___ ___|  ",
        "    +|~~~~~~~~++::~~~~~~~H~~+=====+~~~~~~|~~||_| |_||  ",
        "    ||        | ::       H  +=====+      |  |::  ...|  ",
        "|    | _______|_::-----------------[][]-----|       |  ",
    ];
    assert(text_of(lines@) =~= c51_body_text());
    assert forall|i: int| 0 <= i < 7 implies (#[trigger] lines@[i]).is_ascii() by {
        assert(lines@[i]@ == c51_body_text()[i]);
    }
    lines
}

/// The wheels of the C51 in animation pattern `p`, four lines.
#[verifier::opaque]
pub open spec fn c51_wheels_text(p: int) -> Seq<Seq<char>> {
    if p == 0 {
        seq![
            r#"| /~~ ||   |-----/~~~~\  /[I_____I][][] --|||_______|__"#@,
            "------'|oOo|==[]=-     ||      ||      |  ||=======_|__"@,
            r#"/~\____|___|/~\_|   O=======O=======O  |__|+-/~\_|     "#@,
            r#"\_/         \_/  \____/  \____/  \____/      \_/       "#@,
        ]
    } else if p == 1 {
        seq![
            r#"| /~~ ||   |-----/~~~~\  /[I_____I][][] --|||_______|__"#@,
            "------'|oOo|===[]=-    ||      ||      |  ||=======_|__"@,
            r#"/~\____|___|/~\_|    O=======O=======O |__|+-/~\_|     "#@,
            r#"\_/         \_/  \____/  \____/  \____/      \_/       "#@,
        ]
    } else if p == 2 {
        seq![
            r#"| /~~ ||   |-----/~~~~\  /[I_____I][][] --|||_______|__"#@,
            "------'|oOo|===[]=- O=======O=======O  |  ||=======_|__"@,
            r#"/~\____|___|/~\_|      ||      ||      |__|+-/~\_|     "#@,
            r#"\_/         \_/  \____/  \____/  \____/      \_/       "#@,
        ]
    } else if p == 3 {
        seq![
            r#"| /~~ ||   |-----/~~~~\  /[I_____I][][] --|||_______|__"#@,
            "------'|oOo|==[]=- O=======O=======O   |  ||=======_|__"@,
            r#"/~\____|___|/~\_|      ||      ||      |__|+-/~\_|     "#@,
            r#"\_/         \_/  \____/  \____/  \____/      \_/       "#@,
        ]
    } else if p == 4 {
        seq![
            r#"| /~~ ||   |-----/~~~~\  /[I_____I][][] --|||_______|__"#@,
            "------'|oOo|=[]=- O=======O=======O    |  ||=======_|__"@,
            r#"/~\____|___|/~\_|      ||      ||      |__|+-/~\_|     "#@,
            r#"\_/         \_/  \____/  \____/  \____/      \_/       "#@,
        ]
    } else {
        seq![
            r#"| /~~ ||   |-----/~~~~\  /[I_____I][][] --|||_______|__"#@,
            "------'|oOo|=[]=-      ||      ||      |  ||=======_|__"@,
            r#"/~\____|___|/~\_|  O=======O=======O   |__|+-/~\_|     "#@,
            r#"\_/         \_/  \____/  \____/  \____/      \_/       "#@,
        ]
    }
}

/// The wheels of the C51 in animation pattern `p`, four lines.
pub fn c51_wheels(p: usize) -> (lines: [&'static str; 4])
    requires
        p < 6,
    ensures
        text_of(lines@) == c51_wheels_text(p as int),
        forall|i: int| 0 <= i < 4 ==> (#[trigger] lines@[i]).is_ascii(),
{
    proof {
        lemma_c51_ascii();
        reveal(c51_wheels_text);
    }
    match p {
        0 => {
            let lines = [
                r#"| /~~ ||   |-----/~~~~\  /[I_____I][][] --|||_______|__"#,
                "------'|oOo|==[]=-     ||      ||      |  ||=======_|__",
                r#"/~\____|___|/~\_|   O=======O=======O  |__|+-/~\_|     "#,
                r#"\_/         \_/  \____/  \____/  \____/      \_/       "#,
            ];
            assert(text_of(lines@) =~= c51_wheels_text(0));
            assert(all_ascii(c51_wheels_text(0)));
            assert forall|i: int| 0 <= i < 4 implies (#[trigger] lines@[i]).is_ascii() by {
                assert(lines@[i]@ == c51_wheels_text(0)[i]);
            }
            lines
        },
        1 => {
            let lines = [
                r#"| /~~ ||   |-----/~~~~\  /[I_____I][][] --|||_______|__"#,
                "------'|oOo|===[]=-    ||      ||      |  ||=======_|__",
                r#"/~\____|___|/~\_|    O=======O=======O |__|+-/~\_|     "#,
                r#"\_/         \_/  \____/  \____/  \____/      \_/       "#,
            ];
            assert(text_of(lines@) =~= c51_wheels_text(1));
            assert(all_ascii(c51_wheels_text(1)));
            assert forall|i: int| 0 <= i < 4 implies (#[trigger] lines@[i]).is_ascii() by {
                assert(lines@[i]@ == c51_wheels_text(1)[i]);
            }
            lines
        },
        2 => {
            let lines = [
                r#"| /~~ ||   |-----/~~~~\  /[I_____I][][] --|||_______|__"#,
                "------'|oOo|===[]=- O=======O=======O  |  ||=======_|__",
                r#"/~\____|___|/~\_|      ||      ||      |__|+-/~\_|     "#,
                r#"\_/         \_/  \____/  \____/  \____/      \_/       "#,
            ];
            assert(text_of(lines@) =~= c51_wheels_text(2));
            assert(all_ascii(c51_wheels_text(2)));
            assert forall|i: int| 0 <= i < 4 implies (#[trigger] lines@[i]).is_ascii() by {
                assert(lines@[i]@ == c51_wheels_text(2)[i]);
            }
            lines
        },
        3 => {
            let lines = [
                r#"| /~~ ||   |-----/~~~~\  /[I_____I][][] --|||_______|__"#,
                "------'|oOo|==[]=- O=======O=======O   |  ||=======_|__",
                r#"/~\____|___|/~\_|      ||      ||      |__|+-/~\_|     "#,
                r#"\_/         \_/  \____/  \____/  \____/      \_/       "#,
            ];
            assert(text_of(lines@) =~= c51_wheels_text(3));
            assert(all_ascii(c51_wheels_text(3)));
            assert forall|i: int| 0 <= i < 4 implies (#[trigger] lines@[i]).is_ascii() by {
                assert(lines@[i]@ == c51_wheels_text(3)[i]);
            }
            lines
        },
        4 => {
            let lines = [
                r#"| /~~ ||   |-----/~~~~\  /[I_____I][][] --|||_______|__"#,
                "------'|oOo|=[]=- O=======O=======O    |  ||=======_|__",
                r#"/~\____|___|/~\_|      ||      ||      |__|+-/~\_|     "#,
                r#"\_/         \_/  \____/  \____/  \____/      \_/       "#,
            ];
            assert(text_of(lines@) =~= c51_wheels_text(4));
            assert(all_ascii(c51_wheels_text(4)));
            assert forall|i: int| 0 <= i < 4 implies (#[trigger] lines@[i]).is_ascii() by {
                assert(lines@[i]@ == c51_wheels_text(4)[i]);
            }
            lines
        },
        _ => {
            let lines = [
                r#"| /~~ ||   |-----/~~~~\  /[I_____I][][] --|||_______|__"#,
                "------'|oOo|=[]=-      ||      ||      |  ||=======_|__",
                r#"/~\____|___|/~\_|  O=======O=======O   |__|+-/~\_|     "#,
                r#"\_/         \_/  \____/  \____/  \____/      \_/       "#,
            ];
            assert(text_of(lines@) =~= c51_wheels_text(5));
            assert(all_ascii(c51_wheels_text(5)));
            assert forall|i: int| 0 <= i < 4 implies (#[trigger] lines@[i]).is_ascii() by {
                assert(lines@[i]@ == c51_wheels_text(5)[i]);
            }
            lines
        },
    }
}

/// The coal car behind the C51, twelve lines.
#[verifier::opaque]
pub open spec fn c51_coal_text() -> Seq<Seq<char>> {
    seq![
        "                              "@,
        "                              "@,
        "                              "@,
        "    _________________         "@,
        r#"   _|                \_____A  "#@,
        " =|                        |  "@,
        " -|                        |  "@,
        "__|________________________|_ "@,
        "|__________________________|_ "@,
        "   |_D__D__D_|  |_D__D__D_|   "@,
        r#"    \_/   \_/    \_/   \_/    "#@,
        "                              "@,
    ]
}

/// The coal car behind the C51, twelve lines.
pub fn c51_coal() -> (lines: [&'static str; 12])
    ensures
        text_of(lines@) == c51_coal_text(),
        forall|i: int| 0 <= i < 12 ==> (#[trigger] lines@[i]).is_ascii(),
{
    proof {
        lemma_c51_ascii();
        reveal(c51_coal_text);
    }
    let lines = [
        "                              ",
        "                              ",
        "                              ",
        "    _________________         ",
        r#"   _|                \_____A  "#,
        " =|                        |  ",
        " -|                        |  ",
        "__|________________________|_ ",
        "|__________________________|_ ",
        "   |_D__D__D_|  |_D__D__D_|   ",
        r#"    \_/   \_/    \_/   \_/    "#,
        "                              ",
    ];
    assert(text_of(lines@) =~= c51_coal_text());
    assert forall|i: int| 0 <= i < 12 implies (#[trigger] lines@[i]).is_ascii() by {
        assert(lines@[i]@ == c51_coal_text()[i]);
    }
    lines
}

/// The coal car of the classic drawing, ten lines.
#[verifier::opaque]
pub open spec fn classic_coal_text() -> Seq<Seq<char>> {
    seq![
        "                              "@,
        "                              "@,
        "   _________________          "@,
        r#"  _|                \_____A   "#@,
        " =|                        |  "@,
        " -|                        |  "@,
        "__|________________________|_ "@,
        "|__________________________|_ "@,
        "   |_D__D__D_|  |_D__D__D_|   "@,
        r#"    \_/   \_/    \_/   \_/    "#@,
    ]
}

/// The coal car of the classic drawing, ten lines.
pub fn classic_coal() -> (lines: [&'static str; 10])
    ensures
        text_of(lines@) == classic_coal_text(),
        forall|i: int| 0 <= i < 10 ==> (#[trigger] lines@[i]).is_ascii(),
{
    proof {
        lemma_classic_ascii();
        reveal(classic_coal_text);
    }
    let lines = [
        "                              ",
        "                              ",
        "   _________________          ",
        r#"  _|                \_____A   "#,
        " =|                        |  ",
        " -|                        |  ",
        "__|________________________|_ ",
        "|__________________________|_ ",
        "   |_D__D__D_|  |_D__D__D_|   ",
        r#"    \_/   \_/    \_/   \_/    "#,
    ];
    assert(text_of(lines@) =~= classic_coal_text());
    assert forall|i: int| 0 <= i < 10 implies (#[trigger] lines@[i]).is_ascii() by {
        assert(lines@[i]@ == classic_coal_text()[i]);
    }
    lines
}

/// A blank line as wide as the coal car.
#[verifier::opaque]
pub open spec fn coal_blank_text() -> Seq<char> {
    "                              "@
}

/// A blank line as wide as the coal car.
pub fn coal_blank() -> (s: &'static str)
    ensures
        s@ == coal_blank_text(),
        s.is_ascii(),
{
    proof {
        lemma_classic_ascii();
        reveal(coal_blank_text);
    }
    "                              "
}

/// The blank line drawn under the D51 in the classic drawing.
#[verifier::opaque]
pub open spec fn d51_trail_text() -> Seq<char> {
    "                                                      "@
}

/// The blank line drawn under the D51 in the classic drawing.
pub fn d51_trail() -> (s: &'static str)
    ensures
        s@ == d51_trail_text(),
        s.is_ascii(),
{
    proof {
        lemma_classic_ascii();
        reveal(d51_trail_text);
    }
    "                                                      "
}

/// The blank line drawn under the wheels of the D51 and the C51.
#[verifier::opaque]
pub open spec fn wheels_eraser_text() -> Seq<char> {
    "                                                       "@
}

/// The blank line drawn under the wheels of the D51 and the C51.
pub fn wheels_eraser() -> (s: &'static str)
    ensures
        s@ == wheels_eraser_text(),
        s.is_ascii(),
{
    proof {
        lemma_d51_ascii();
        reveal(wheels_eraser_text);
    }
    "                                                       "
}

/// The upper body of the small SL locomotive, four lines.
#[verifier::opaque]
pub open spec fn logo_body_text() -> Seq<Seq<char>> {
    seq![
        "     ++      +------ "@,
        "     ||      |+-+ |  "@,
        "   /---------|| | |  "@,
        "  + ========  +-+ |  "@,
    ]
}

/// The upper body of the small SL locomotive, four lines.
pub fn logo_body() -> (lines: [&'static str; 4])
    ensures
        text_of(lines@) == logo_body_text(),
        forall|i: int| 0 <= i < 4 ==> (#[trigger] lines@[i]).is_ascii(),
{
    proof {
        lemma_logo_ascii();
        reveal(logo_body_text);
    }
    let lines = [
        "     ++      +------ ",
        "     ||      |+-+ |  ",
        "   /---------|| | |  ",
        "  + ========  +-+ |  ",
    ];
    assert(text_of(lines@) =~= logo_body_text());
    assert forall|i: int| 0 <= i < 4 implies (#[trigger] lines@[i]).is_ascii() by {
        assert(lines@[i]@ == logo_body_text()[i]);
    }
    lines
}

/// The wheels of the small SL locomotive in animation pattern `p`, two lines.
#[verifier::opaque]
pub open spec fn logo_wheels_text(p: int) -> Seq<Seq<char>> {
    if p == 0 {
        seq![
            r#" _|--O========O~\-+  "#@,
            r#"//// \_/      \_/    "#@,
        ]
    } else if p == 1 {
        seq![
            r#" _|--/O========O\-+  "#@,
            r#"//// \_/      \_/    "#@,
        ]
    } else if p == 2 {
        seq![
            " _|--/~O========O-+  "@,
            r#"//// \_/      \_/    "#@,
        ]
    } else if p == 3 {
        seq![
            r#" _|--/~\------/~\-+  "#@,
            r#"//// \_O========O    "#@,
        ]
    } else if p == 4 {
        seq![
            r#" _|--/~\------/~\-+  "#@,
            r#"//// \O========O/    "#@,
        ]
    } else {
        seq![
            r#" _|--/~\------/~\-+  "#@,
            "//// O========O_/    "@,
        ]
    }
}

/// The wheels of the small SL locomotive in animation pattern `p`, two lines.
pub fn logo_wheels(p: usize) -> (lines: [&'static str; 2])
    requires
        p < 6,
    ensures
        text_of(lines@) == logo_wheels_text(p as int),
        forall|i: int| 0 <= i < 2 ==> (#[trigger] lines@[i]).is_ascii(),
{
    proof {
        lemma_logo_ascii();
        reveal(logo_wheels_text);
    }
    match p {
        0 => {
            let lines = [
                r#" _|--O========O~\-+  "#,
                r#"//// \_/      \_/    "#,
            ];
            assert(text_of(lines@) =~= logo_wheels_text(0));
            assert(all_ascii(logo_wheels_text(0)));
            assert forall|i: int| 0 <= i < 2 implies (#[trigger] lines@[i]).is_ascii() by {
                assert(lines@[i]@ == logo_wheels_text(0)[i]);
            }
            lines
        },
        1 => {
            let lines = [
                r#" _|--/O========O\-+  "#,
                r#"//// \_/      \_/    "#,
            ];
            assert(text_of(lines@) =~= logo_wheels_text(1));
            assert(all_ascii(logo_wheels_text(1)));
            assert forall|i: int| 0 <= i < 2 implies (#[trigger] lines@[i]).is_ascii() by {
                assert(lines@[i]@ == logo_wheels_text(1)[i]);
            }
            lines
        },
        2 => {
            let lines = [
                " _|--/~O========O-+  ",
                r#"//// \_/      \_/    "#,
            ];
            assert(text_of(lines@) =~= logo_wheels_text(2));
            assert(all_ascii(logo_wheels_text(2)));
            assert forall|i: int| 0 <= i < 2 implies (#[trigger] lines@[i]).is_ascii() by {
                assert(lines@[i]@ == logo_wheels_text(2)[i]);
            }
            lines
        },
        3 => {
            let lines = [
                r#" _|--/~\------/~\-+  "#,
                r#"//// \_O========O    "#,
            ];
            assert(text_of(lines@) =~= logo_wheels_text(3));
            assert(all_ascii(logo_wheels_text(3)));
            assert forall|i: int| 0 <= i < 2 implies (#[trigger] lines@[i]).is_ascii() by {
                assert(lines@[i]@ == logo_wheels_text(3)[i]);
            }
            lines
        },
        4 => {
            let lines = [
                r#" _|--/~\------/~\-+  "#,
                r#"//// \O========O/    "#,
            ];
            assert(text_of(lines@) =~= logo_wheels_text(4));
            assert(all_ascii(logo_wheels_text(4)));
            assert forall|i: int| 0 <= i < 2 implies (#[trigger] lines@[i]).is_ascii() by {
                assert(lines@[i]@ == logo_wheels_text(4)[i]);
            }
            lines
        },
        _ => {
            let lines = [
                r#" _|--/~\------/~\-+  "#,
                "//// O========O_/    ",
            ];
            assert(text_of(lines@) =~= logo_wheels_text(5));
            assert(all_ascii(logo_wheels_text(5)));
            assert forall|i: int| 0 <= i < 2 implies (#[trigger] lines@[i]).is_ascii() by {
                assert(lines@[i]@ == logo_wheels_text(5)[i]);
            }
            lines
        },
    }
}

/// A blank line as wide as the small SL locomotive.
#[verifier::opaque]
pub open spec fn logo_eraser_text() -> Seq<char> {
    "                     "@
}

/// A blank line as wide as the small SL locomotive.
pub fn logo_eraser() -> (s: &'static str)
    ensures
        s@ == logo_eraser_text(),
        s.is_ascii(),
{
    proof {
        lemma_logo_ascii();
        reveal(logo_eraser_text);
    }
    "                     "
}

/// The coal car of the small SL train, seven lines.
#[verifier::opaque]
pub open spec fn logo_coal_text() -> Seq<Seq<char>> {
    seq![
        "____                 "@,
        r#"|   \@@@@@@@@@@@     "#@,
        r#"|    \@@@@@@@@@@@@@_ "#@,
        "|                  | "@,
        "|__________________| "@,
        "   (O)       (O)     "@,
        "                     "@,
    ]
}

/// The coal car of the small SL train, seven lines.
pub fn logo_coal() -> (lines: [&'static str; 7])
    ensures
        text_of(lines@) == logo_coal_text(),
        forall|i: int| 0 <= i < 7 ==> (#[trigger] lines@[i]).is_ascii(),
{
    proof {
        lemma_logo_ascii();
        reveal(logo_coal_text);
    }
    let lines = [
        "____                 ",
        r#"|   \@@@@@@@@@@@     "#,
        r#"|    \@@@@@@@@@@@@@_ "#,
        "|                  | ",
        "|__________________| ",
        "   (O)       (O)     ",
        "                     ",
    ];
    assert(text_of(lines@) =~= logo_coal_text());
    assert forall|i: int| 0 <= i < 7 implies (#[trigger] lines@[i]).is_ascii() by {
        assert(lines@[i]@ == logo_coal_text()[i]);
    }
    lines
}

/// A passenger car of the small SL train, seven lines.
#[verifier::opaque]
pub open spec fn logo_car_text() -> Seq<Seq<char>> {
    seq![
        "____________________ "@,
        "|  ___ ___ ___ ___ | "@,
        "|  |_| |_| |_| |_| | "@,
        "|__________________| "@,
        "|__________________| "@,
        "   (O)        (O)    "@,
        "                     "@,
    ]
}

/// A passenger car of the small SL train, seven lines.
pub fn logo_car() -> (lines: [&'static str; 7])
    ensures
        text_of(lines@) == logo_car_text(),
        forall|i: int| 0 <= i < 7 ==> (#[trigger] lines@[i]).is_ascii(),
{
    proof {
        lemma_logo_ascii();
        reveal(logo_car_text);
    }
    let lines = [
        "____________________ ",
        "|  ___ ___ ___ ___ | ",
        "|  |_| |_| |_| |_| | ",
        "|__________________| ",
        "|__________________| ",
        "   (O)        (O)    ",
        "                     ",
    ];
    assert(text_of(lines@) =~= logo_car_text());
    assert forall|i: int| 0 <= i < 7 implies (#[trigger] lines@[i]).is_ascii() by {
        assert(lines@[i]@ == logo_car_text()[i]);
    }
    lines
}

/// A person on board in pose `p`: quiet, or waving and crying for help.
#[verifier::opaque]
pub open spec fn man_text(p: int) -> Seq<Seq<char>> {
    if p == 0 {
        seq![
            ""@,
            "(O)"@,
        ]
    } else {
        seq![
            "Help!"@,
            r#"\O/"#@,
        ]
    }
}

/// A person on board in pose `p`: quiet, or waving and crying for help.
pub fn man(p: usize) -> (lines: [&'static str; 2])
    requires
        p < 2,
    ensures
        text_of(lines@) == man_text(p as int),
        forall|i: int| 0 <= i < 2 ==> (#[trigger] lines@[i]).is_ascii(),
{
    proof {
        lemma_man_smoke_ascii();
        reveal(man_text);
    }
    match p {
        0 => {
            let lines = [
                "",
                "(O)",
            ];
            assert(text_of(lines@) =~= man_text(0));
            assert(all_ascii(man_text(0)));
            assert forall|i: int| 0 <= i < 2 implies (#[trigger] lines@[i]).is_ascii() by {
                assert(lines@[i]@ == man_text(0)[i]);
            }
            lines
        },
        _ => {
            let lines = [
                "Help!",
                r#"\O/"#,
            ];
            assert(text_of(lines@) =~= man_text(1));
            assert(all_ascii(man_text(1)));
            assert forall|i: int| 0 <= i < 2 implies (#[trigger] lines@[i]).is_ascii() by {
                assert(lines@[i]@ == man_text(1)[i]);
            }
            lines
        },
    }
}

/// How many frames a smoke puff goes through.
pub const SMOKE_FRAMES: usize = 16;

/// The shapes of a smoke puff of kind `kind`, one per frame: kind 0 is
/// drawn with brackets and `O`, kind 1 with `@`.
#[verifier::opaque]
pub open spec fn smoke_text(kind: int) -> Seq<Seq<char>> {
    if kind == 0 {
        seq![
            "(   )"@,
            "(    )"@,
            "(    )"@,
            "(   )"@,
            "(  )"@,
            "(  )"@,
            "( )"@,
            "( )"@,
            "()"@,
            "()"@,
            "O"@,
            "O"@,
            "O"@,
            "O"@,
            "O"@,
            " "@,
        ]
    } else {
        seq![
            "(@@@)"@,
            "(@@@@)"@,
            "(@@@@)"@,
            "(@@@)"@,
            "(@@)"@,
            "(@@)"@,
            "(@)"@,
            "(@)"@,
            "@@"@,
            "@@"@,
            "@"@,
            "@"@,
            "@"@,
            "@"@,
            "@"@,
            " "@,
        ]
    }
}

/// The shape of a smoke puff of kind `kind` at frame `frame`.
pub fn smoke_shape(kind: usize, frame: usize) -> (s: &'static str)
    requires
        kind < 2,
        frame < SMOKE_FRAMES,
    ensures
        s@ == smoke_text(kind as int)[frame as int],
        s.is_ascii(),
{
    proof {
        lemma_man_smoke_ascii();
        reveal(smoke_text);
    }
    if kind == 0 {
        let shapes = [
            "(   )",
            "(    )",
            "(    )",
            "(   )",
            "(  )",
            "(  )",
            "( )",
            "( )",
            "()",
            "()",
            "O",
            "O",
            "O",
            "O",
            "O",
            " ",
        ];
        assert(text_of(shapes@) =~= smoke_text(0));
        assert(shapes@[frame as int]@ == text_of(shapes@)[frame as int]);
        assert(all_ascii(smoke_text(0)));
        shapes[frame]
    } else {
        let shapes = [
            "(@@@)",
            "(@@@@)",
            "(@@@@)",
            "(@@@)",
            "(@@)",
            "(@@)",
            "(@)",
            "(@)",
            "@@",
            "@@",
            "@",
            "@",
            "@",
            "@",
            "@",
            " ",
        ];
        assert(text_of(shapes@) =~= smoke_text(1));
        assert(shapes@[frame as int]@ == text_of(shapes@)[frame as int]);
        assert(all_ascii(smoke_text(1)));
        shapes[frame]
    }
}

/// The blanks that erase a smoke puff at each frame.
#[verifier::opaque]
pub open spec fn smoke_eraser_text() -> Seq<Seq<char>> {
    seq![
        "     "@,
        "      "@,
        "      "@,
        "     "@,
        "    "@,
        "    "@,
        "   "@,
        "   "@,
        "  "@,
        "  "@,
        " "@,
        " "@,
        " "@,
        " "@,
        " "@,
        " "@,
    ]
}

/// The blanks that erase a smoke puff at frame `frame`.
pub fn smoke_eraser(frame: usize) -> (s: &'static str)
    requires
        frame < SMOKE_FRAMES,
    ensures
        s@ == smoke_eraser_text()[frame as int],
        s.is_ascii(),
{
    proof {
        lemma_man_smoke_ascii();
        reveal(smoke_eraser_text);
    }
    let blanks = [
        "     ",
        "      ",
        "      ",
        "     ",
        "    ",
        "    ",
        "   ",
        "   ",
        "  ",
        "  ",
        " ",
        " ",
        " ",
        " ",
        " ",
        " ",
    ];
    assert(text_of(blanks@) =~= smoke_eraser_text());
    assert(blanks@[frame as int]@ == text_of(blanks@)[frame as int]);
    blanks[frame]
}

/// How many rows a smoke puff rises when it leaves frame `f`.
pub open spec fn smoke_rise(f: int) -> int {
    if f == 0 {
        2
    } else if f < 4 {
        1
    } else {
        0
    }
}

/// How many columns a smoke puff drifts to the right when it leaves frame
/// `f`.
pub open spec fn smoke_drift(f: int) -> int {
    if f == 0 {
        -2
    } else if f == 1 {
        -1
    } else if f == 2 {
        0
    } else if f < 8 {
        1
    } else if f < 13 {
        2
    } else {
        3
    }
}

/// The frame a smoke puff shows after frame `f`: the next one, until the
/// last frame, which it keeps.
pub open spec fn next_frame(f: int) -> int {
    if f < SMOKE_FRAMES - 1 {
        f + 1
    } else {
        f
    }
}

/// How many rows a smoke puff rises when it leaves frame `frame`.
pub fn smoke_dy(frame: usize) -> (dy: i32)
    requires
        frame < SMOKE_FRAMES,
    ensures
        dy == smoke_rise(frame as int),
{
    let rises: [i32; 16] = [2, 1, 1, 1, 0, 0, 0, 0, 0, 0, 0, 0, 0, 0, 0, 0];
    assert(rises@ =~= seq![2i32, 1, 1, 1, 0, 0, 0, 0, 0, 0, 0, 0, 0, 0, 0, 0]);
    rises[frame]
}

/// How many columns a smoke puff drifts when it leaves frame `frame`.
pub fn smoke_dx(frame: usize) -> (dx: i32)
    requires
        frame < SMOKE_FRAMES,
    ensures
        dx == smoke_drift(frame as int),
{
    let drifts: [i32; 16] = [-2, -1, 0, 1, 1, 1, 1, 1, 2, 2, 2, 2, 2, 3, 3, 3];
    assert(drifts@ =~= seq![-2i32, -1i32, 0i32, 1i32, 1i32, 1i32, 1i32, 1i32, 2i32, 2i32, 2i32, 2i32, 2i32, 3i32, 3i32, 3i32]);
    drifts[frame]
}

/// Every line of the D51 pictures is ASCII.
pub proof fn lemma_d51_ascii()
    ensures
        all_ascii(d51_body_text()),
        forall|p: int| 0 <= p < 6 ==> #[trigger] all_ascii(d51_wheels_text(p)),
        all_ascii(d51_coal_text()),
        is_ascii_chars(wheels_eraser_text()),
{
    reveal(d51_body_text);
    reveal(d51_wheels_text);
    reveal(d51_coal_text);
    reveal(wheels_eraser_text);
    reveal_strlit("      ====        ________                ___________ ");
    reveal_strlit(r#"  _D _|  |_______/        \__I_I_____===__|_________| "#);
    reveal_strlit(r#"   |(_)---  |   H\________/ |   |        =|___ ___|   "#);
    reveal_strlit("   /     |  |   H  |  |     |   |         ||_| |_||   ");
    reveal_strlit("  |      |  |   H  |__--------------------| [___] |   ");
    reveal_strlit(r#"  | ________|___H__/__|_____/[][]~\_______|       |   "#);
    reveal_strlit("  |/ |   |-----------I_____I [][] []  D   |=======|__ ");
    reveal_strlit(r#"__/ =| o |=-~~\  /~~\  /~~\  /~~\ ____Y___________|__ "#);
    reveal_strlit(r#" |/-=|___|=    ||    ||    ||    |_____/~\___/        "#);
    reveal_strlit(r#"  \_/      \O=====O=====O=====O_/      \_/            "#);
    reveal_strlit(r#" |/-=|___|=O=====O=====O=====O   |_____/~\___/        "#);
    reveal_strlit(r#"  \_/      \__/  \__/  \__/  \__/      \_/            "#);
    reveal_strlit(r#"__/ =| o |=-O=====O=====O=====O \ ____Y___________|__ "#);
    reveal_strlit(r#"__/ =| o |=-~O=====O=====O=====O\ ____Y___________|__ "#);
    reveal_strlit(r#" |/-=|___|=   O=====O=====O=====O|_____/~\___/        "#);
    reveal_strlit(r#"  \_/      \_O=====O=====O=====O/      \_/            "#);
    reveal_strlit("                              ");
    reveal_strlit("    _________________         ");
    reveal_strlit(r#"   _|                \_____A  "#);
    reveal_strlit(" =|                        |  ");
    reveal_strlit(" -|                        |  ");
    reveal_strlit("__|________________________|_ ");
    reveal_strlit("|__________________________|_ ");
    reveal_strlit("   |_D__D__D_|  |_D__D__D_|   ");
    reveal_strlit(r#"    \_/   \_/    \_/   \_/    "#);
    reveal_strlit("                                                       ");
}

/// Every line of the C51 pictures is ASCII.
pub proof fn lemma_c51_ascii()
    ensures
        all_ascii(c51_body_text()),
        forall|p: int| 0 <= p < 6 ==> #[trigger] all_ascii(c51_wheels_text(p)),
        all_ascii(c51_coal_text()),
{
    reveal(c51_body_text);
    reveal(c51_wheels_text);
    reveal(c51_coal_text);
    reveal_strlit("        ___                                            ");
    reveal_strlit("       _|_|_  _     __       __             ___________");
    reveal_strlit(r#"    D__/   \_(_)___|  |__H__|  |_____I_Ii_()|_________|"#);
    reveal_strlit("     | `---'   |:: `--'  H  `--'         |  |___ ___|  ");
    reveal_strlit("    +|~~~~~~~~++::~~~~~~~H~~+=====+~~~~~~|~~||_| |_||  ");
    reveal_strlit("    ||        | ::       H  +=====+      |  |::  ...|  ");
    reveal_strlit("|    | _______|_::-----------------[][]-----|       |  ");
    reveal_strlit(r#"| /~~ ||   |-----/~~~~\  /[I_____I][][] --|||_______|__"#);
    reveal_strlit("------'|oOo|==[]=-     ||      ||      |  ||=======_|__");
    reveal_strlit(r#"/~\____|___|/~\_|   O=======O=======O  |__|+-/~\_|     "#);
    reveal_strlit(r#"\_/         \_/  \____/  \____/  \____/      \_/       "#);
    reveal_strlit("------'|oOo|===[]=-    ||      ||      |  ||=======_|__");
    reveal_strlit(r#"/~\____|___|/~\_|    O=======O=======O |__|+-/~\_|     "#);
    reveal_strlit("------'|oOo|===[]=- O=======O=======O  |  ||=======_|__");
    reveal_strlit(r#"/~\____|___|/~\_|      ||      ||      |__|+-/~\_|     "#);
    reveal_strlit("------'|oOo|==[]=- O=======O=======O   |  ||=======_|__");
    reveal_strlit("------'|oOo|=[]=- O=======O=======O    |  ||=======_|__");
    reveal_strlit("------'|oOo|=[]=-      ||      ||      |  ||=======_|__");
    reveal_strlit(r#"/~\____|___|/~\_|  O=======O=======O   |__|+-/~\_|     "#);
    reveal_strlit("                              ");
    reveal_strlit("    _________________         ");
    reveal_strlit(r#"   _|                \_____A  "#);
    reveal_strlit(" =|                        |  ");
    reveal_strlit(" -|                        |  ");
    reveal_strlit("__|________________________|_ ");
    reveal_strlit("|__________________________|_ ");
    reveal_strlit("   |_D__D__D_|  |_D__D__D_|   ");
    reveal_strlit(r#"    \_/   \_/    \_/   \_/    "#);
}

/// Every line of the small SL train is ASCII.
pub proof fn lemma_logo_ascii()
    ensures
        all_ascii(logo_body_text()),
        forall|p: int| 0 <= p < 6 ==> #[trigger] all_ascii(logo_wheels_text(p)),
        all_ascii(logo_coal_text()),
        all_ascii(logo_car_text()),
        is_ascii_chars(logo_eraser_text()),
{
    reveal(logo_body_text);
    reveal(logo_wheels_text);
    reveal(logo_coal_text);
    reveal(logo_car_text);
    reveal(logo_eraser_text);
    reveal_strlit("     ++      +------ ");
    reveal_strlit("     ||      |+-+ |  ");
    reveal_strlit("   /---------|| | |  ");
    reveal_strlit("  + ========  +-+ |  ");
    reveal_strlit(r#" _|--O========O~\-+  "#);
    reveal_strlit(r#"//// \_/      \_/    "#);
    reveal_strlit(r#" _|--/O========O\-+  "#);
    reveal_strlit(" _|--/~O========O-+  ");
    reveal_strlit(r#" _|--/~\------/~\-+  "#);
    reveal_strlit(r#"//// \_O========O    "#);
    reveal_strlit(r#"//// \O========O/    "#);
    reveal_strlit("//// O========O_/    ");
    reveal_strlit("____                 ");
    reveal_strlit(r#"|   \@@@@@@@@@@@     "#);
    reveal_strlit(r#"|    \@@@@@@@@@@@@@_ "#);
    reveal_strlit("|                  | ");
    reveal_strlit("|__________________| ");
    reveal_strlit("   (O)       (O)     ");
    reveal_strlit("                     ");
    reveal_strlit("____________________ ");
    reveal_strlit("|  ___ ___ ___ ___ | ");
    reveal_strlit("|  |_| |_| |_| |_| | ");
    reveal_strlit("   (O)        (O)    ");
}

/// Every line of the classic coal car is ASCII.
pub proof fn lemma_classic_ascii()
    ensures
        all_ascii(classic_coal_text()),
        is_ascii_chars(coal_blank_text()),
        is_ascii_chars(d51_trail_text()),
{
    reveal(classic_coal_text);
    reveal(coal_blank_text);
    reveal(d51_trail_text);
    reveal_strlit("                              ");
    reveal_strlit("   _________________          ");
    reveal_strlit(r#"  _|                \_____A   "#);
    reveal_strlit(" =|                        |  ");
    reveal_strlit(" -|                        |  ");
    reveal_strlit("__|________________________|_ ");
    reveal_strlit("|__________________________|_ ");
    reveal_strlit("   |_D__D__D_|  |_D__D__D_|   ");
    reveal_strlit(r#"    \_/   \_/    \_/   \_/    "#);
    reveal_strlit("                                                      ");
}

/// The people on board and the smoke are ASCII.
pub proof fn lemma_man_smoke_ascii()
    ensures
        forall|p: int| 0 <= p < 2 ==> #[trigger] all_ascii(man_text(p)),
        forall|p: int| 0 <= p < 2 ==> #[trigger] all_ascii(smoke_text(p)),
        all_ascii(smoke_eraser_text()),
{
    reveal(man_text);
    reveal(smoke_text);
    reveal(smoke_eraser_text);
    reveal_strlit("");
    reveal_strlit("(O)");
    reveal_strlit("Help!");
    reveal_strlit(r#"\O/"#);
    reveal_strlit("(   )");
    reveal_strlit("(    )");
    reveal_strlit("(  )");
    reveal_strlit("( )");
    reveal_strlit("()");
    reveal_strlit("O");
    reveal_strlit(" ");
    reveal_strlit("(@@@)");
    reveal_strlit("(@@@@)");
    reveal_strlit("(@@)");
    reveal_strlit("(@)");
    reveal_strlit("@@");
    reveal_strlit("@");
    reveal_strlit("     ");
    reveal_strlit("      ");
    reveal_strlit("    ");
    reveal_strlit("   ");
    reveal_strlit("  ");
}

/// The D51 has seven body lines and three wheel lines in each pattern,
/// all 54 columns wide.
pub proof fn lemma_d51_shape()
    ensures
        d51_body_text().len() == 7,
        forall|i: int| 0 <= i < 7 ==> (#[trigger] d51_body_text()[i]).len() == 54,
        forall|p: int| #[trigger] d51_wheels_text(p).len() == 3,
        forall|p: int, j: int| 0 <= j < 3 ==> (#[trigger] d51_wheels_text(p)[j]).len() == 54,
{
    reveal(d51_body_text);
    reveal(d51_wheels_text);
    reveal_strlit("      ====        ________                ___________ ");
    reveal_strlit(r#"  _D _|  |_______/        \__I_I_____===__|_________| "#);
    reveal_strlit(r#"   |(_)---  |   H\________/ |   |        =|___ ___|   "#);
    reveal_strlit("   /     |  |   H  |  |     |   |         ||_| |_||   ");
    reveal_strlit("  |      |  |   H  |__--------------------| [___] |   ");
    reveal_strlit(r#"  | ________|___H__/__|_____/[][]~\_______|       |   "#);
    reveal_strlit("  |/ |   |-----------I_____I [][] []  D   |=======|__ ");
    reveal_strlit(r#"__/ =| o |=-~~\  /~~\  /~~\  /~~\ ____Y___________|__ "#);
    reveal_strlit(r#" |/-=|___|=    ||    ||    ||    |_____/~\___/        "#);
    reveal_strlit(r#"  \_/      \O=====O=====O=====O_/      \_/            "#);
    reveal_strlit(r#" |/-=|___|=O=====O=====O=====O   |_____/~\___/        "#);
    reveal_strlit(r#"  \_/      \__/  \__/  \__/  \__/      \_/            "#);
    reveal_strlit(r#"__/ =| o |=-O=====O=====O=====O \ ____Y___________|__ "#);
    reveal_strlit(r#"__/ =| o |=-~O=====O=====O=====O\ ____Y___________|__ "#);
    reveal_strlit(r#" |/-=|___|=   O=====O=====O=====O|_____/~\___/        "#);
    reveal_strlit(r#"  \_/      \_O=====O=====O=====O/      \_/            "#);
}

/// The first line of the C51's body is 55 columns wide.
pub proof fn lemma_c51_top_line()
    ensures
        c51_body_text().len() == 7,
        c51_body_text()[0].len() == 55,
{
    reveal(c51_body_text);
    reveal_strlit("        ___                                            ");
}

/// A person on board is two lines; the second, the body, three columns
/// wide in either pose.
pub proof fn lemma_man_shape(p: int)
    ensures
        man_text(p).len() == 2,
        man_text(p)[1].len() == 3,
{
    reveal(man_text);
    reveal_strlit("(O)");
    reveal_strlit(r#"\O/"#);
}

/// The blanks that erase a puff at a frame are exactly as wide as the puff
/// at that frame, of either kind.
pub proof fn lemma_eraser_fits_smoke(kind: int, f: int)
    requires
        0 <= kind < 2,
        0 <= f < SMOKE_FRAMES,
    ensures
        smoke_eraser_text()[f].len() == smoke_text(kind)[f].len(),
        forall|c: int| 0 <= c < smoke_eraser_text()[f].len() ==> smoke_eraser_text()[f][c] == ' ',
{
    reveal(smoke_text);
    reveal(smoke_eraser_text);
    reveal_strlit("(   )");
    reveal_strlit("(    )");
    reveal_strlit("(  )");
    reveal_strlit("( )");
    reveal_strlit("()");
    reveal_strlit("O");
    reveal_strlit(" ");
    reveal_strlit("(@@@)");
    reveal_strlit("(@@@@)");
    reveal_strlit("(@@)");
    reveal_strlit("(@)");
    reveal_strlit("@@");
    reveal_strlit("@");
    reveal_strlit("     ");
    reveal_strlit("      ");
    reveal_strlit("    ");
    reveal_strlit("   ");
    reveal_strlit("  ");
}

/// The C51 has seven body lines and four wheel lines in each pattern, the
/// wheel lines 55 columns wide.
pub proof fn lemma_c51_shape()
    ensures
        c51_body_text().len() == 7,
        forall|p: int| #[trigger] c51_wheels_text(p).len() == 4,
        forall|p: int, j: int| 0 <= j < 4 ==> (#[trigger] c51_wheels_text(p)[j]).len() == 55,
{
    reveal(c51_body_text);
    reveal(c51_wheels_text);
    reveal_strlit(r#"| /~~ ||   |-----/~~~~\  /[I_____I][][] --|||_______|__"#);
    reveal_strlit("------'|oOo|==[]=-     ||      ||      |  ||=======_|__");
    reveal_strlit(r#"/~\____|___|/~\_|   O=======O=======O  |__|+-/~\_|     "#);
    reveal_strlit(r#"\_/         \_/  \____/  \____/  \____/      \_/       "#);
    reveal_strlit("------'|oOo|===[]=-    ||      ||      |  ||=======_|__");
    reveal_strlit(r#"/~\____|___|/~\_|    O=======O=======O |__|+-/~\_|     "#);
    reveal_strlit("------'|oOo|===[]=- O=======O=======O  |  ||=======_|__");
    reveal_strlit(r#"/~\____|___|/~\_|      ||      ||      |__|+-/~\_|     "#);
    reveal_strlit("------'|oOo|==[]=- O=======O=======O   |  ||=======_|__");
    reveal_strlit("------'|oOo|=[]=- O=======O=======O    |  ||=======_|__");
    reveal_strlit("------'|oOo|=[]=-      ||      ||      |  ||=======_|__");
    reveal_strlit(r#"/~\____|___|/~\_|  O=======O=======O   |__|+-/~\_|     "#);
}

/// The small SL locomotive has four body lines and two wheel lines in each
/// pattern, the wheel lines 21 columns wide.
pub proof fn lemma_logo_shape()
    ensures
        logo_body_text().len() == 4,
        forall|p: int| #[trigger] logo_wheels_text(p).len() == 2,
        forall|p: int, j: int| 0 <= j < 2 ==> (#[trigger] logo_wheels_text(p)[j]).len() == 21,
{
    reveal(logo_body_text);
    reveal(logo_wheels_text);
    reveal_strlit(r#" _|--O========O~\-+  "#);
    reveal_strlit(r#"//// \_/      \_/    "#);
    reveal_strlit(r#" _|--/O========O\-+  "#);
    reveal_strlit(" _|--/~O========O-+  ");
    reveal_strlit(r#" _|--/~\------/~\-+  "#);
    reveal_strlit(r#"//// \_O========O    "#);
    reveal_strlit(r#"//// \O========O/    "#);
    reveal_strlit("//// O========O_/    ");
}

} // verus!
