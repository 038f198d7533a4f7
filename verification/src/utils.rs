use vstd::prelude::*;

verus! {

/// What `str::replace` returns: `s` with every match of `from`
/// replaced by `to`. The result depends on the three strings alone.
pub uninterp spec fn replace_of(s: Seq<char>, from: Seq<char>, to: Seq<char>) -> Seq<char>;

/// Relies on str::replace: replaces every match of the pattern with
/// the replacement string.
#[verifier::external_body]
fn replace_str(s: &str, from: &str, to: &str) -> (r: String)
    ensures
        r@ == replace_of(s@, from@, to@),
{
    s.replace(from, to)
}

/// What `str::trim_end` returns: `s` without its trailing whitespace.
/// The result depends on the characters alone.
pub uninterp spec fn trim_end_of(s: Seq<char>) -> Seq<char>;

/// Relies on str::trim_end: returns the string with trailing
/// whitespace removed, so the result is a prefix of its input.
#[verifier::external_body]
fn trim_end_str(s: &str) -> (r: &str)
    ensures
        r@ == trim_end_of(s@),
        r@.len() <= s@.len(),
        r@ == s@.subrange(0, r@.len() as int),
{
    s.trim_end()
}

/// The template after the placeholders from `i` on have each been
/// replaced, in order, by the matching argument.
pub open spec fn apply_template(
    cmd: Seq<char>,
    targs: Seq<Seq<char>>,
    args: Seq<Seq<char>>,
    i: int,
) -> Seq<char>
    decreases targs.len() - i,
{
    if i < 0 || i >= targs.len() {
        cmd
    } else {
        apply_template(replace_of(cmd, targs[i], args[i]), targs, args, i + 1)
    }
}

/// A command line built from a template by substituting one argument
/// for each placeholder.
#[derive(Clone)]
pub struct TemplateCommand {
    pub run_template: String,
    pub template_args: Vec<String>,
}

impl TemplateCommand {
    pub fn new(run_template: String, template_args: Vec<String>) -> (r: TemplateCommand)
        ensures
            r.run_template@ == run_template@,
            r.template_args.deep_view() == template_args.deep_view(),
    {
        Self { run_template, template_args }
    }

    /// The template with each placeholder replaced, in order, by the
    /// argument at its position.
    pub fn get_command(&self, args: Vec<String>) -> (r: String)
        requires
            args@.len() == self.template_args@.len(),
        ensures
            r@ == apply_template(
                self.run_template@,
                self.template_args.deep_view(),
                args.deep_view(),
                0,
            ),
    {
        let ghost targs = self.template_args.deep_view();
        let ghost argsv = args.deep_view();
        let mut command: String = self.run_template.clone();
        let n = self.template_args.len();
        let mut i: usize = 0;
        while i < n
            invariant
                i <= n,
                n == self.template_args@.len(),
                args@.len() == n,
                targs == self.template_args.deep_view(),
                argsv == args.deep_view(),
                apply_template(self.run_template@, targs, argsv, 0) == apply_template(
                    command@,
                    targs,
                    argsv,
                    i as int,
                ),
            decreases n - i,
        {
            let arg = &self.template_args[i];
            command = replace_str(command.as_str(), arg.as_str(), args[i].as_str());
            i = i + 1;
        }
        command
    }
}

/// Two line lists agree where they overlap: up to the shorter list's
/// length, each pair of lines is equal once trailing whitespace is
/// removed.
pub open spec fn lines_match(l1: Seq<Seq<char>>, l2: Seq<Seq<char>>) -> bool {
    forall|i: int|
        #![trigger l1[i], l2[i]]
        0 <= i < l1.len() && i < l2.len() ==> trim_end_of(l1[i]) == trim_end_of(l2[i])
}

/// Compare two files' lines, ignoring trailing whitespace on each
/// line, over the length of the shorter file.
pub fn compare_lines(lines1: &Vec<String>, lines2: &Vec<String>) -> (r: bool)
    ensures
        r == lines_match(lines1.deep_view(), lines2.deep_view()),
{
    let ghost l1 = lines1.deep_view();
    let ghost l2 = lines2.deep_view();
    let n = if lines1.len() <= lines2.len() {
        lines1.len()
    } else {
        lines2.len()
    };
    let mut i: usize = 0;
    while i < n
        invariant
            i <= n,
            n == (if l1.len() <= l2.len() {
                l1.len()
            } else {
                l2.len()
            }),
            l1 == lines1.deep_view(),
            l2 == lines2.deep_view(),
            forall|j: int|
                #![trigger l1[j], l2[j]]
                0 <= j < i ==> trim_end_of(l1[j]) == trim_end_of(l2[j]),
        decreases n - i,
    {
        let t1 = trim_end_str(lines1[i].as_str());
        let t2 = trim_end_str(lines2[i].as_str());
        let s1 = t1.to_owned();
        let s2 = t2.to_owned();
        if !(s1 == s2) {
            proof {
                assert(trim_end_of(l1[i as int]) != trim_end_of(l2[i as int]));
            }
            return false;
        }
        i = i + 1;
    }
    true
}

} // verus!
