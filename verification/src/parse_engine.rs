use vstd::prelude::*;
use vstd::string::StringExecFns;
use rand::rngs::StdRng;
use crate::board::{Board, Move};
use crate::color::Color;
use crate::engine::{Engine, Lookahead0, Random};
use crate::greedy::Greedy;
use crate::lookahead1::Lookahead1;
use crate::piece_value::Material;

verus! {

/// The engines that have a name, each with its parameters set.
#[derive(Clone, Copy, Debug, PartialEq, Eq)]
pub enum NamedEngine {
    Random(Random),
    Greedy(Greedy),
    L0Material(Lookahead0<Material>),
    L1Material(Lookahead1<Material>),
}

/// The name that was asked for and stands for no engine.
#[derive(Clone, Debug, PartialEq, Eq)]
pub struct UnknownEngine(pub String);

impl UnknownEngine {
    /// The text of the error: `unknown engine: ` and the name.
    pub fn message(&self) -> (text: String)
        ensures
            text@ == "unknown engine: "@ + self.0@,
    {
        String::from_str("unknown engine: ").concat(self.0.as_str())
    }
}

/// The engine that a name stands for, if any.
pub open spec fn engine_named(name: Seq<char>) -> Option<NamedEngine> {
    if name == "random"@ {
        Some(NamedEngine::Random(Random()))
    } else if name == "greedy"@ {
        Some(NamedEngine::Greedy(Greedy()))
    } else if name == "l0.mat"@ {
        Some(NamedEngine::L0Material(Lookahead0(Material)))
    } else if name == "l1.mat"@ {
        Some(NamedEngine::L1Material(Lookahead1(Material)))
    } else {
        None
    }
}

/// Resolves the name of an engine. An unknown name is handed back in the error.
pub fn parse_engine(name: &str) -> (r: Result<NamedEngine, UnknownEngine>)
    ensures
        match engine_named(name@) {
            Some(engine) => r == Ok::<NamedEngine, UnknownEngine>(engine),
            None => r is Err && r->Err_0.0@ == name@,
        },
{
    let asked = String::from_str(name);
    if asked == String::from_str("random") {
        Ok(NamedEngine::Random(Random()))
    } else if asked == String::from_str("greedy") {
        Ok(NamedEngine::Greedy(Greedy()))
    } else if asked == String::from_str("l0.mat") {
        Ok(NamedEngine::L0Material(Lookahead0(Material)))
    } else if asked == String::from_str("l1.mat") {
        Ok(NamedEngine::L1Material(Lookahead1(Material)))
    } else {
        Err(UnknownEngine(asked))
    }
}

impl<B: Board> Engine<B> for NamedEngine {
    open spec fn choices(&self, board: B, player: Color) -> Seq<Move> {
        match *self {
            NamedEngine::Random(engine) => engine.choices(board, player),
            NamedEngine::Greedy(engine) => engine.choices(board, player),
            NamedEngine::L0Material(engine) => engine.choices(board, player),
            NamedEngine::L1Material(engine) => engine.choices(board, player),
        }
    }

    fn do_move(&self, rng: &mut StdRng, board: &B, player: Color) -> (r: Option<Move>) {
        match self {
            NamedEngine::Random(engine) => engine.do_move(rng, board, player),
            NamedEngine::Greedy(engine) => engine.do_move(rng, board, player),
            NamedEngine::L0Material(engine) => engine.do_move(rng, board, player),
            NamedEngine::L1Material(engine) => engine.do_move(rng, board, player),
        }
    }
}

} // verus!
