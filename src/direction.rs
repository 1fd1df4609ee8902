use vstd::prelude::*;

verus! {

/// Where a pane stands relative to a reference pane.
#[derive(PartialEq, Eq, Structural, Clone, Copy, Debug)]
pub enum Direction {
    Left,
    Right,
    Up,
    Down,
}

/// The word the multiplexer uses for a direction.
pub open spec fn direction_word(d: Direction) -> Seq<char> {
    match d {
        Direction::Left => seq!['l', 'e', 'f', 't'],
        Direction::Right => seq!['r', 'i', 'g', 'h', 't'],
        Direction::Up => seq!['u', 'p'],
        Direction::Down => seq!['d', 'o', 'w', 'n'],
    }
}

/// The side a split puts the new pane on.
pub open spec fn split_side(d: Direction) -> Seq<char> {
    match d {
        Direction::Left => seq!['l', 'e', 'f', 't'],
        Direction::Right => seq!['r', 'i', 'g', 'h', 't'],
        Direction::Up => seq!['t', 'o', 'p'],
        Direction::Down => seq!['b', 'o', 't', 't', 'o', 'm'],
    }
}

impl Direction {
    /// The multiplexer's word for this direction.
    pub fn as_str(&self) -> (r: &'static str)
        ensures
            r@ == direction_word(*self),
    {
        match self {
            Direction::Left => {
                proof {
                    reveal_strlit("left");
                }
                "left"
            },
            Direction::Right => {
                proof {
                    reveal_strlit("right");
                }
                "right"
            },
            Direction::Up => {
                proof {
                    reveal_strlit("up");
                }
                "up"
            },
            Direction::Down => {
                proof {
                    reveal_strlit("down");
                }
                "down"
            },
        }
    }

    /// The option of the multiplexer's split command that puts the new pane
    /// on this side.
    pub fn split_flag(&self) -> (r: &'static str)
        ensures
            r@ == seq!['-', '-'] + split_side(*self),
    {
        match self {
            Direction::Left => {
                proof {
                    reveal_strlit("--left");
                }
                "--left"
            },
            Direction::Right => {
                proof {
                    reveal_strlit("--right");
                }
                "--right"
            },
            Direction::Up => {
                proof {
                    reveal_strlit("--top");
                }
                "--top"
            },
            Direction::Down => {
                proof {
                    reveal_strlit("--bottom");
                }
                "--bottom"
            },
        }
    }
}

} // verus!
