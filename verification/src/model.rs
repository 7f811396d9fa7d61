use vstd::prelude::*;

verus! {

/// One configured data source contributing a segment of the composed bar
/// text.  `interval` counts ticks between automatic recomputations (0 means
/// "never on tick"); `signal` is the external trigger identifier (0 means
/// "no external trigger"); `str` holds the most recent rendered output,
/// decoration included, or `None` when the producer failed or has not run.
#[derive(Debug, PartialEq, Clone)]
pub struct Item {
    pub name: String,
    pub params: Vec<String>,
    pub signal: i32,
    pub interval: u64,
    pub bg: Option<String>,
    pub fg: Option<String>,
    pub str: Option<String>,
    pub prefix: String,
    pub suffix: String,
}

/// The whole bar state: the display-ordered item list, the separator placed
/// between rendered items, global decoration defaults, the colour-markup
/// switch, and the monotonic tick counter.
#[derive(Debug, PartialEq, Clone)]
pub struct Bar {
    pub list: Vec<Item>,
    pub sep: String,
    pub status2d_color: bool,
    pub counter: u64,
    pub prefix: String,
    pub suffix: String,
}

} // verus!
