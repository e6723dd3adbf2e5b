//! The server configuration: address, problems and languages.
//!
//! Scores are carried as the bit pattern of an IEEE-754 double (`f64::to_bits`):
//! the library stores, copies and orders them but never computes with them.

use vstd::prelude::*;

verus! {

/// Where the server listens.
pub struct Server {
    pub bind_address: Option<String>,
    pub bind_port: Option<u16>,
}

/// How a submission's output is judged.
#[derive(Clone, Copy, Debug, PartialEq, Eq, Structural)]
pub enum ProblemType {
    Standard,
    Strict,
    Spj,
    DynamicRanking,
}

/// One test case of a problem.
pub struct ProblemCase {
    /// The case's score, as the bits of an `f64`.
    pub score_bits: u64,
    pub input_file: String,
    pub answer_file: String,
    pub time_limit: u64,
    pub memory_limit: u64,
}

/// Optional settings of a problem.
pub struct Misc {
    /// Groups of case numbers (1-based) judged together.
    pub packing: Option<Vec<Vec<u64>>>,
    /// Command line of the special judge.
    pub special_judge: Option<Vec<String>>,
    /// The dynamic ranking ratio, as the bits of an `f64`.
    pub dynamic_ranking_ratio_bits: Option<u64>,
}

/// A problem of the configuration.
pub struct Problem {
    pub id: u64,
    pub name: String,
    pub ty: ProblemType,
    pub misc: Option<Misc>,
    pub cases: Vec<ProblemCase>,
}

/// A programming language: its name, the file the source goes to and the
/// compile command (with `%INPUT%` and `%OUTPUT%` placeholders).
pub struct Language {
    pub name: String,
    pub file_name: String,
    pub command: Vec<String>,
}

/// The whole configuration file.
pub struct Config {
    pub server: Server,
    pub problems: Vec<Problem>,
    pub languages: Vec<Language>,
}

/// Plain view of a [`Misc`].
pub struct MiscView {
    pub packing: Option<Seq<Seq<u64>>>,
    pub special_judge: Option<Seq<String>>,
    pub dynamic_ranking_ratio_bits: Option<u64>,
}

/// Plain view of a [`Problem`].
pub struct ProblemView {
    pub id: u64,
    pub name: String,
    pub ty: ProblemType,
    pub misc: Option<MiscView>,
    pub cases: Seq<ProblemCase>,
}

/// Plain view of a [`Language`].
pub struct LanguageView {
    pub name: String,
    pub file_name: String,
    pub command: Seq<String>,
}

impl View for Misc {
    type V = MiscView;

    open spec fn view(&self) -> MiscView {
        MiscView {
            packing: match self.packing {
                Some(p) => Some(p@.map_values(|g: Vec<u64>| g@)),
                None => None,
            },
            special_judge: match self.special_judge {
                Some(s) => Some(s@),
                None => None,
            },
            dynamic_ranking_ratio_bits: self.dynamic_ranking_ratio_bits,
        }
    }
}

impl View for Problem {
    type V = ProblemView;

    open spec fn view(&self) -> ProblemView {
        ProblemView {
            id: self.id,
            name: self.name,
            ty: self.ty,
            misc: match self.misc {
                Some(m) => Some(m@),
                None => None,
            },
            cases: self.cases@,
        }
    }
}

impl View for Language {
    type V = LanguageView;

    open spec fn view(&self) -> LanguageView {
        LanguageView { name: self.name, file_name: self.file_name, command: self.command@ }
    }
}

impl Clone for ProblemCase {
    fn clone(&self) -> (res: Self)
        ensures
            res == *self,
    {
        ProblemCase {
            score_bits: self.score_bits,
            input_file: self.input_file.clone(),
            answer_file: self.answer_file.clone(),
            time_limit: self.time_limit,
            memory_limit: self.memory_limit,
        }
    }
}

/// A copy of a list of strings.
pub fn clone_strings(v: &Vec<String>) -> (r: Vec<String>)
    ensures
        r@ == v@,
{
    let r = v.clone();
    assert(r@ =~= v@);
    r
}

/// A copy of a list of numbers.
pub fn clone_numbers(v: &Vec<u64>) -> (r: Vec<u64>)
    ensures
        r@ == v@,
{
    let r = v.clone();
    assert(r@ =~= v@);
    r
}

pub fn clone_groups(v: &Vec<Vec<u64>>) -> (r: Vec<Vec<u64>>)
    ensures
        r@.map_values(|g: Vec<u64>| g@) == v@.map_values(|g: Vec<u64>| g@),
{
    let mut r: Vec<Vec<u64>> = Vec::new();
    for i in 0..v.len()
        invariant
            r@.len() == i,
            forall|k: int| 0 <= k < i ==> (#[trigger] r@[k])@ == v@[k]@,
    {
        r.push(clone_numbers(&v[i]));
    }
    assert(r@.map_values(|g: Vec<u64>| g@) =~= v@.map_values(|g: Vec<u64>| g@));
    r
}

impl Clone for Misc {
    fn clone(&self) -> (res: Self)
        ensures
            res@ == self@,
    {
        let packing = match &self.packing {
            Some(p) => Some(clone_groups(p)),
            None => None,
        };
        let special_judge = match &self.special_judge {
            Some(s) => Some(clone_strings(s)),
            None => None,
        };
        Misc { packing, special_judge, dynamic_ranking_ratio_bits: self.dynamic_ranking_ratio_bits }
    }
}

impl Clone for Problem {
    fn clone(&self) -> (res: Self)
        ensures
            res@ == self@,
    {
        let misc = match &self.misc {
            Some(m) => Some(m.clone()),
            None => None,
        };
        let cases = self.cases.clone();
        assert(cases@ =~= self.cases@);
        Problem { id: self.id, name: self.name.clone(), ty: self.ty, misc, cases }
    }
}

impl Clone for Language {
    fn clone(&self) -> (res: Self)
        ensures
            res@ == self@,
    {
        Language {
            name: self.name.clone(),
            file_name: self.file_name.clone(),
            command: clone_strings(&self.command),
        }
    }
}

impl Problem {
    /// An empty problem: id 0, no name, standard judging, no settings, no cases.
    pub fn new() -> (r: Problem)
        ensures
            r.id == 0,
            r.name@ == Seq::<char>::empty(),
            r.ty == ProblemType::Standard,
            r.misc is None,
            r.cases@ == Seq::<ProblemCase>::empty(),
    {
        Problem {
            id: 0,
            name: String::new(),
            ty: ProblemType::Standard,
            misc: None,
            cases: Vec::new(),
        }
    }
}

impl Language {
    /// An empty language: no name, no file name, no command.
    pub fn new() -> (r: Language)
        ensures
            r.name@ == Seq::<char>::empty(),
            r.file_name@ == Seq::<char>::empty(),
            r.command@ == Seq::<String>::empty(),
    {
        Language { name: String::new(), file_name: String::new(), command: Vec::new() }
    }
}

/// The address the server listens on when the configuration gives none.
pub open spec fn default_address() -> Seq<char> {
    "127.0.0.1"@
}

/// The port the server listens on when the configuration gives none.
pub open spec fn default_port() -> u16 {
    12345
}

impl Server {
    /// Fills in the default address and port where the configuration left them out.
    pub fn fill_defaults(&mut self)
        ensures
            final(self).bind_address is Some,
            old(self).bind_address is Some ==> final(self).bind_address == old(self).bind_address,
            old(self).bind_address is None ==> final(self).bind_address.unwrap()@
                == default_address(),
            final(self).bind_port == Some(old(self).bind_port.unwrap_or(default_port())),
    {
        if self.bind_address.is_none() {
            self.bind_address = Some(String::from_str("127.0.0.1"));
        }
        if self.bind_port.is_none() {
            self.bind_port = Some(12345);
        }
    }
}

} // verus!
