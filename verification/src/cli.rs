//! Parsing of the supervisor's command line: the log and working-directory
//! flags in either `--flag=value` or `--flag value` form, then the child
//! command and, verbatim and unexamined, its arguments.

use vstd::prelude::*;

use crate::text::{starts_with, str_eq, str_skip, str_starts_with};

verus! {

/// What the supervisor was asked to do.
pub struct RunOptions {
    pub log_path: Option<String>,
    pub working_dir: Option<String>,
    pub command_name: Option<String>,
    pub command_args: Vec<String>,
}

/// Mathematical state of parsed options.
#[verifier::ext_equal]
pub struct RunOptionsView {
    pub log_path: Option<Seq<char>>,
    pub working_dir: Option<Seq<char>>,
    pub command_name: Option<Seq<char>>,
    pub command_args: Seq<Seq<char>>,
}

impl View for RunOptions {
    type V = RunOptionsView;

    open spec fn view(&self) -> RunOptionsView {
        RunOptionsView {
            log_path: self.log_path.deep_view(),
            working_dir: self.working_dir.deep_view(),
            command_name: self.command_name.deep_view(),
            command_args: self.command_args.deep_view(),
        }
    }
}

/// Options with nothing set yet.
pub open spec fn empty_options() -> RunOptionsView {
    RunOptionsView { log_path: None, working_dir: None, command_name: None, command_args: Seq::empty() }
}

/// The parse of `tokens` on top of what `acc` already holds: flags may
/// appear anywhere and the later occurrence wins; the first token that is
/// no flag is the command; everything after it is an argument.
pub open spec fn spec_parse_run_args(tokens: Seq<Seq<char>>, acc: RunOptionsView)
    -> RunOptionsView
    decreases tokens.len(),
{
    if tokens.len() == 0 {
        acc
    } else {
        let t = tokens[0];
        if starts_with(t, "--log="@) {
            spec_parse_run_args(
                tokens.drop_first(),
                RunOptionsView { log_path: Some(t.skip("--log="@.len() as int)), ..acc },
            )
        } else if t == "--log"@ && tokens.len() >= 2 {
            spec_parse_run_args(
                tokens.skip(2),
                RunOptionsView { log_path: Some(tokens[1]), ..acc },
            )
        } else if starts_with(t, "--cwd="@) {
            spec_parse_run_args(
                tokens.drop_first(),
                RunOptionsView { working_dir: Some(t.skip("--cwd="@.len() as int)), ..acc },
            )
        } else if t == "--cwd"@ && tokens.len() >= 2 {
            spec_parse_run_args(
                tokens.skip(2),
                RunOptionsView { working_dir: Some(tokens[1]), ..acc },
            )
        } else if acc.command_name is None {
            spec_parse_run_args(
                tokens.drop_first(),
                RunOptionsView { command_name: Some(t), ..acc },
            )
        } else {
            spec_parse_run_args(
                tokens.drop_first(),
                RunOptionsView { command_args: acc.command_args.push(t), ..acc },
            )
        }
    }
}

/// Parses the supervisor's command line. The first element of `args` is
/// the program's own name and is skipped.
pub fn parse_run_args(args: &Vec<String>) -> (r: RunOptions)
    requires
        args@.len() >= 1,
    ensures
        r@ == spec_parse_run_args(args.deep_view().skip(1), empty_options()),
{
    let ghost full = args.deep_view();
    let mut r = RunOptions {
        log_path: None,
        working_dir: None,
        command_name: None,
        command_args: Vec::new(),
    };
    let mut i: usize = 1;
    proof {
        assert(r@ =~= empty_options());
    }
    while i < args.len()
        invariant
            1 <= i <= args@.len(),
            full == args.deep_view(),
            full.len() == args@.len(),
            spec_parse_run_args(full.skip(1), empty_options()) == spec_parse_run_args(
                full.skip(i as int),
                r@,
            ),
        decreases args@.len() - i,
    {
        let ghost t = full.skip(i as int);
        let ghost acc = r@;
        proof {
            assert(t[0] == full[i as int]);
            assert(t.drop_first() =~= full.skip(i as int + 1));
        }
        let tok = &args[i];
        if str_starts_with(tok.as_str(), "--log=") {
            let plen = "--log=".unicode_len();
            let value = str_skip(tok.as_str(), plen);
            r.log_path = Some(value);
            proof {
                assert(r@ =~= (RunOptionsView {
                    log_path: Some(t[0].skip("--log="@.len() as int)),
                    ..acc
                }));
            }
            i = i + 1;
        } else if str_eq(tok.as_str(), "--log") && i + 1 < args.len() {
            r.log_path = Some(args[i + 1].clone());
            proof {
                assert(t[1] == full[i as int + 1]);
                assert(t.skip(2) =~= full.skip(i as int + 2));
                assert(r@ =~= (RunOptionsView { log_path: Some(t[1]), ..acc }));
            }
            i = i + 2;
        } else if str_starts_with(tok.as_str(), "--cwd=") {
            let plen = "--cwd=".unicode_len();
            let value = str_skip(tok.as_str(), plen);
            r.working_dir = Some(value);
            proof {
                assert(r@ =~= (RunOptionsView {
                    working_dir: Some(t[0].skip("--cwd="@.len() as int)),
                    ..acc
                }));
            }
            i = i + 1;
        } else if str_eq(tok.as_str(), "--cwd") && i + 1 < args.len() {
            r.working_dir = Some(args[i + 1].clone());
            proof {
                assert(t[1] == full[i as int + 1]);
                assert(t.skip(2) =~= full.skip(i as int + 2));
                assert(r@ =~= (RunOptionsView { working_dir: Some(t[1]), ..acc }));
            }
            i = i + 2;
        } else if r.command_name.is_none() {
            r.command_name = Some(tok.clone());
            proof {
                assert(r@ =~= (RunOptionsView { command_name: Some(t[0]), ..acc }));
            }
            i = i + 1;
        } else {
            r.command_args.push(tok.clone());
            proof {
                assert(r@ =~= (RunOptionsView { command_args: acc.command_args.push(t[0]), ..acc }));
            }
            i = i + 1;
        }
    }
    proof {
        assert(full.skip(args@.len() as int) =~= Seq::<Seq<char>>::empty());
    }
    r
}

} // verus!
