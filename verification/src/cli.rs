use vstd::prelude::*;

use crate::calendar::{parse_naive_date, spec_parse_date, CHRONO_FORMAT};

verus! {

/// Command-line-interface to the finalgo algorithm.
#[derive(Clone, Debug)]
pub struct Cli {
    /// The subcommand to run.
    pub command: Subcommand,
}

/// Subcommands for the finalgo interface.
#[derive(Clone, Debug)]
pub enum Subcommand {
    /// Run the interface.
    Run(RunArgs),
    /// Evaluate the algorithm with test data.
    Eval(EvalArgs),
    /// Trade the best ranked tickers of an evaluation.
    Trade(TradeArgs),
}

/// Arguments for the run command.
#[derive(Clone, Debug)]
pub struct RunArgs {
    /// The target date to predict for.
    pub target: String,
    /// The ticker to use.
    pub ticker: String,
}

/// Arguments for the trade command.
#[derive(Clone, Debug)]
pub struct TradeArgs {
    /// The target date to trade for.
    pub target: String,
    /// The evaluation file to take the ranked tickers from, or 'auto' for the
    /// latest one in the `eval` directory.
    pub data: String,
}

/// Arguments for the eval command.
#[derive(Clone, Debug)]
pub struct EvalArgs {
    /// Should the evaluator include statistics for every registered score.
    pub stats: bool,
    /// The sample count to use.
    pub samples: usize,
    /// Should the evaluator rank the tickers.
    pub rank: bool,
    /// If set, the JSON output will be written to the given path or if 'auto' the path is automatically generated.
    pub out: Option<String>,
    /// The end date to use.
    pub end: String,
    /// The ticker to use.
    pub tickers: Vec<String>,
}

/// The output path that an `--out` argument resolves to: `auto` becomes
/// `eval/<end>.json`, any other path is kept, no path stays none.
pub open spec fn resolved_out_path(out: Option<Seq<char>>, end: Seq<char>) -> Option<Seq<char>> {
    match out {
        Some(p) => if p == "auto"@ {
            Some("eval/"@ + end + ".json"@)
        } else {
            Some(p)
        },
        None => None,
    }
}

impl EvalArgs {
    /// The sample count used when none is given.
    pub const DEFAULT_SAMPLES: usize = 250;

    /// Resolves the output path: `auto` becomes `eval/<end>.json`.
    pub fn output_path(&self) -> (r: Option<String>)
        ensures
            match r {
                Some(p) => resolved_out_path(
                    match self.out {
                        Some(o) => Some(o@),
                        None => None,
                    },
                    self.end@,
                ) == Some(p@),
                None => self.out is None,
            },
    {
        match &self.out {
            None => None,
            Some(path) => {
                let auto = "auto".to_string();
                if *path == auto {
                    let mut p = "eval/".to_string();
                    p.append(self.end.as_str());
                    p.append(".json");
                    Some(p)
                } else {
                    Some(path.clone())
                }
            },
        }
    }
}

/// The text of `s` without leading and trailing whitespace, as `str::trim`
/// gives it.
pub uninterp spec fn spec_trim(s: Seq<char>) -> Seq<char>;

/// Calls `str::trim`. Claimed: the result depends on the text only. Which
/// characters count as whitespace (Unicode's) is not stated.
#[verifier::external_body]
fn trim<'a>(s: &'a str) -> (r: &'a str)
    ensures
        r@ == spec_trim(s@),
{
    s.trim()
}

/// True when `name` ends with `.json`.
pub open spec fn has_json_suffix(name: Seq<char>) -> bool {
    let n = name.len() as int;
    &&& n >= 5
    &&& name[n - 5] == '.'
    &&& name[n - 4] == 'j'
    &&& name[n - 3] == 's'
    &&& name[n - 2] == 'o'
    &&& name[n - 1] == 'n'
}

/// What a file of the `eval` directory named `name` tells of its end date:
/// `None` for a file that is no `.json` file; otherwise the date that the
/// trimmed name without its `.json` suffix denotes, `Some(None)` if there is
/// none.
pub open spec fn eval_file_day(name: Seq<char>) -> Option<Option<int>> {
    if !has_json_suffix(name) {
        None
    } else {
        let t = spec_trim(name);
        if has_json_suffix(t) {
            Some(spec_parse_date(t.subrange(0, t.len() - 5), CHRONO_FORMAT@))
        } else {
            Some(None)
        }
    }
}

/// True for a `.json` file name whose date does not parse.
pub open spec fn is_bad_eval_file(name: Seq<char>) -> bool {
    eval_file_day(name) == Some(None::<int>)
}

fn has_json_suffix_exec(s: &str) -> (b: bool)
    ensures
        b == has_json_suffix(s@),
{
    let n = s.unicode_len();
    if n < 5 {
        return false;
    }
    s.get_char(n - 5) == '.' && s.get_char(n - 4) == 'j' && s.get_char(n - 3) == 's'
        && s.get_char(n - 2) == 'o' && s.get_char(n - 1) == 'n'
}

/// The end date of an evaluation file name, as [eval_file_day] describes.
pub fn eval_file_day_of(name: &str) -> (r: Option<Option<i32>>)
    ensures
        match r {
            None => eval_file_day(name@) is None,
            Some(None) => eval_file_day(name@) == Some(None::<int>),
            Some(Some(d)) => eval_file_day(name@) == Some(Some(d as int)),
        },
{
    if !has_json_suffix_exec(name) {
        return None;
    }
    let t = trim(name);
    if !has_json_suffix_exec(t) {
        return Some(None);
    }
    let n = t.unicode_len();
    let stem = t.substring_char(0, n - 5);
    Some(parse_naive_date(stem))
}

/// Picks the latest end date among the files of the `eval` directory.
///
/// Returns `Err(i)` for the first `.json` file `names[i]` whose date does not
/// parse, `Ok(None)` when there is no `.json` file, and otherwise the latest
/// date that a `.json` file names.
pub fn latest_eval_day(names: &Vec<String>) -> (r: Result<Option<i32>, usize>)
    ensures
        match r {
            Err(i) => {
                &&& i < names@.len()
                &&& is_bad_eval_file(names@[i as int]@)
                &&& forall|j: int| 0 <= j < i ==> !is_bad_eval_file(#[trigger] names@[j]@)
            },
            Ok(latest) => {
                &&& forall|j: int| 0 <= j < names@.len() ==> !is_bad_eval_file(#[trigger] names@[j]@)
                &&& match latest {
                    None => forall|j: int|
                        0 <= j < names@.len() ==> #[trigger] eval_file_day(names@[j]@) is None,
                    Some(d) => {
                        &&& exists|j: int|
                            0 <= j < names@.len() && #[trigger] eval_file_day(names@[j]@) == Some(
                                Some(d as int),
                            )
                        &&& forall|j: int|
                            0 <= j < names@.len() ==> match #[trigger] eval_file_day(names@[j]@) {
                                Some(Some(e)) => e <= d,
                                _ => true,
                            }
                    },
                }
            },
        },
{
    let mut latest: Option<i32> = None;
    let mut i: usize = 0;
    while i < names.len()
        invariant
            i <= names@.len(),
            forall|j: int| 0 <= j < i ==> !is_bad_eval_file(#[trigger] names@[j]@),
            match latest {
                None => forall|j: int| 0 <= j < i ==> #[trigger] eval_file_day(names@[j]@) is None,
                Some(d) => {
                    &&& exists|j: int|
                        0 <= j < i && #[trigger] eval_file_day(names@[j]@) == Some(Some(d as int))
                    &&& forall|j: int|
                        0 <= j < i ==> match #[trigger] eval_file_day(names@[j]@) {
                            Some(Some(e)) => e <= d,
                            _ => true,
                        }
                },
            },
        decreases names@.len() - i,
    {
        match eval_file_day_of(names[i].as_str()) {
            None => {},
            Some(None) => {
                return Err(i);
            },
            Some(Some(d)) => {
                let better = match latest {
                    None => true,
                    Some(l) => l < d,
                };
                if better {
                    latest = Some(d);
                    assert(eval_file_day(names@[i as int]@) == Some(Some(d as int)));
                }
            },
        }
        i = i + 1;
    }
    Ok(latest)
}

} // verus!
