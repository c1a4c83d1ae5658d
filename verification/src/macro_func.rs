//! Reusable parametric SQL macros: a declared parameter list (with variadic
//! spread parameters and optional custom joiners), extraction of the
//! placeholder names a body actually references, and rendering of the body
//! against caller-supplied values.

use vstd::prelude::*;
use vstd::string::*;

use crate::migration_dependency::{DepV, Dependency};
use crate::parse_errors::{KindV, ParseErrorKind};
use crate::text::{
    append_line, find_char_from, find_from, first_char, first_occ, has_at, has_prefix,
    lemma_first_char_at, lemma_first_occ_at, lemma_first_occ_bounds, lemma_first_occ_none,
    lemma_has_at_shift, normalize_text, normalized_text, push_line, replace, replace_all,
    seq_join, split_char_spec, split_on_char, starts_with_str, str_eq, trim, trim_spec,
};

verus! {

/// One declared macro parameter.
#[derive(Debug, Clone)]
pub enum MacroArgument {
    /// Plain substitution of a single value.
    AsIs(String),
    /// Variadic parameter joined by `, `.
    Spread(String),
    /// Variadic parameter joined by its own joiner text.
    SpreadJoinedBy(String, String),
}

/// Mathematical image of a `MacroArgument`.
pub enum MacroArgV {
    AsIs(Seq<char>),
    Spread(Seq<char>),
    SpreadJoinedBy(Seq<char>, Seq<char>),
}

impl View for MacroArgument {
    type V = MacroArgV;

    open spec fn view(&self) -> MacroArgV {
        match self {
            MacroArgument::AsIs(n) => MacroArgV::AsIs(n@),
            MacroArgument::Spread(n) => MacroArgV::Spread(n@),
            MacroArgument::SpreadJoinedBy(n, j) => MacroArgV::SpreadJoinedBy(n@, j@),
        }
    }
}

/// The name under which a parameter is declared.
pub open spec fn macro_arg_name(a: MacroArgV) -> Seq<char> {
    match a {
        MacroArgV::AsIs(n) => n,
        MacroArgV::Spread(n) => n,
        MacroArgV::SpreadJoinedBy(n, _) => n,
    }
}

// ---------------------------------------------------------------------------
// parameter-list parsing
// ---------------------------------------------------------------------------

/// All trailing `)` characters removed.
pub open spec fn strip_trailing_parens(s: Seq<char>) -> Seq<char>
    decreases s.len(),
{
    if s.len() > 0 && s.last() == ')' {
        strip_trailing_parens(s.drop_last())
    } else {
        s
    }
}

/// How one trimmed, non-empty parameter segment parses: a `...` prefix makes
/// it a spread; a spread whose remainder holds exactly one `(` carries a
/// custom joiner, the text between the parenthesis and the trailing `)`s.
pub open spec fn parse_single_macro_arg(seg: Seq<char>) -> MacroArgV {
    if has_prefix(seg, "..."@) {
        let rest = seg.skip(3);
        let parts = split_char_spec(rest, '(');
        if parts.len() == 2 {
            MacroArgV::SpreadJoinedBy(
                trim_spec(parts[0]),
                strip_trailing_parens(trim_spec(parts[1])),
            )
        } else {
            MacroArgV::Spread(trim_spec(rest))
        }
    } else {
        MacroArgV::AsIs(seg)
    }
}

/// The comma split of a parameter list, counting parenthesis depth so that
/// commas inside parentheses do not split; segments are trimmed and empty
/// segments are dropped.
pub open spec fn macro_split(
    s: Seq<char>,
    i: int,
    depth: int,
    cur: Seq<char>,
    acc: Seq<Seq<char>>,
) -> Seq<Seq<char>>
    decreases s.len() - i,
{
    if !(0 <= i < s.len()) {
        if trim_spec(cur).len() > 0 {
            acc.push(trim_spec(cur))
        } else {
            acc
        }
    } else {
        let c = s[i];
        if c == '(' {
            macro_split(s, i + 1, depth + 1, cur.push(c), acc)
        } else if c == ')' {
            macro_split(
                s,
                i + 1,
                if depth > 0 {
                    depth - 1
                } else {
                    depth
                },
                cur.push(c),
                acc,
            )
        } else if c == ',' && depth == 0 {
            macro_split(
                s,
                i + 1,
                0,
                Seq::empty(),
                if trim_spec(cur).len() > 0 {
                    acc.push(trim_spec(cur))
                } else {
                    acc
                },
            )
        } else {
            macro_split(s, i + 1, depth, cur.push(c), acc)
        }
    }
}

/// The parsed parameter list of a declaration string.
pub open spec fn parse_macro_args(s: Seq<char>) -> Seq<MacroArgV> {
    macro_split(s, 0, 0, Seq::empty(), Seq::empty()).map_values(
        |seg: Seq<char>| parse_single_macro_arg(seg),
    )
}

// ---------------------------------------------------------------------------
// used-placeholder extraction
// ---------------------------------------------------------------------------

/// Set-like insertion into an ordered list of names.
pub open spec fn used_insert_one(acc: Seq<Seq<char>>, x: Seq<char>) -> Seq<Seq<char>> {
    if acc.contains(x) {
        acc
    } else {
        acc.push(x)
    }
}

/// What one `{{ ... }}` span records: nothing for a blank span; for a spread
/// reference with a joiner both the bare name and the composite
/// `...name(joiner)` form; otherwise the bare (spread or plain) name.
pub open spec fn used_insert(acc: Seq<Seq<char>>, arg: Seq<char>) -> Seq<Seq<char>> {
    if arg.len() == 0 {
        acc
    } else if has_prefix(arg, "..."@) {
        let a = trim_spec(arg.skip(3));
        let p = first_char(a, '(');
        if p >= 0 {
            let name = trim_spec(a.take(p));
            let joiner = strip_trailing_parens(trim_spec(a.skip(p + 1)));
            used_insert_one(used_insert_one(acc, name), "..."@ + name + "("@ + joiner + ")"@)
        } else {
            used_insert_one(acc, a)
        }
    } else {
        used_insert_one(acc, arg)
    }
}

/// Scan `s` for `{{ ... }}` spans, left to right and non-nested; an unmatched
/// `{{` ends the scan without error.
pub open spec fn scan_used(s: Seq<char>, acc: Seq<Seq<char>>) -> Seq<Seq<char>>
    decreases s.len(),
    via scan_used_decreases
{
    let i = first_occ(s, "{{"@);
    if i < 0 {
        acc
    } else {
        let rest = s.skip(i + 2);
        let j = first_occ(rest, "}}"@);
        if j < 0 {
            acc
        } else {
            scan_used(rest.skip(j + 2), used_insert(acc, trim_spec(rest.take(j))))
        }
    }
}

#[via_fn]
proof fn scan_used_decreases(s: Seq<char>, acc: Seq<Seq<char>>) {
    reveal_strlit("{{");
    reveal_strlit("}}");
    lemma_first_occ_bounds(s, "{{"@);
    let i = first_occ(s, "{{"@);
    if i >= 0 {
        lemma_first_occ_bounds(s.skip(i + 2), "}}"@);
    }
}

// ---------------------------------------------------------------------------
// rendering
// ---------------------------------------------------------------------------

/// The first list of values supplied under `name`, if any.
pub open spec fn lookup_values(
    values: Seq<(Seq<char>, Seq<Seq<char>>)>,
    name: Seq<char>,
) -> Option<Seq<Seq<char>>>
    decreases values.len(),
{
    if values.len() == 0 {
        None
    } else if values[0].0 == name {
        Some(values[0].1)
    } else {
        lookup_values(values.drop_first(), name)
    }
}

/// What rendering one declared parameter does to the text: a plain parameter
/// replaces `{{name}}` with the first supplied value; a spread replaces
/// `{{...name}}` with all values joined by `, ` or by its own joiner;
/// unmapped parameters (and a plain parameter with no values) leave the text
/// unchanged.
pub open spec fn render_one(
    cur: Seq<char>,
    arg: MacroArgV,
    values: Seq<(Seq<char>, Seq<Seq<char>>)>,
) -> Seq<char> {
    match arg {
        MacroArgV::AsIs(name) => match lookup_values(values, name) {
            Some(vs) => if vs.len() > 0 {
                replace_all(cur, "{{"@ + name + "}}"@, vs[0])
            } else {
                cur
            },
            None => cur,
        },
        MacroArgV::Spread(name) => match lookup_values(values, name) {
            Some(vs) => replace_all(cur, "{{..."@ + name + "}}"@, seq_join(vs, ", "@)),
            None => cur,
        },
        MacroArgV::SpreadJoinedBy(name, joiner) => match lookup_values(values, name) {
            Some(vs) => replace_all(cur, "{{..."@ + name + "}}"@, seq_join(vs, joiner)),
            None => cur,
        },
    }
}

/// Rendering applies `render_one` for each declared parameter in order.
pub open spec fn render_args(
    cur: Seq<char>,
    args: Seq<MacroArgV>,
    values: Seq<(Seq<char>, Seq<Seq<char>>)>,
) -> Seq<char>
    decreases args.len(),
{
    if args.len() == 0 {
        cur
    } else {
        render_args(render_one(cur, args[0], values), args.drop_first(), values)
    }
}

/// The image of a list of supplied argument values.
pub open spec fn values_view(v: Seq<(String, Vec<String>)>) -> Seq<(Seq<char>, Seq<Seq<char>>)> {
    v.map_values(|p: (String, Vec<String>)| (p.0@, p.1@.map_values(|x: String| x@)))
}

/// Is `u` declared as a parameter name?
pub open spec fn declared_name(args: Seq<MacroArgV>, u: Seq<char>) -> bool {
    exists|k: int| 0 <= k < args.len() && macro_arg_name(#[trigger] args[k]) == u
}

/// The first used placeholder that no declared parameter matches.
pub open spec fn first_missing(used: Seq<Seq<char>>, args: Seq<MacroArgV>) -> Option<Seq<char>>
    decreases used.len(),
{
    if used.len() == 0 {
        None
    } else if !declared_name(args, used[0]) {
        Some(used[0])
    } else {
        first_missing(used.drop_first(), args)
    }
}

/// Mathematical image of a `MacroFunc`.
pub struct MacroFuncV {
    pub name: Seq<char>,
    pub arguments: Seq<MacroArgV>,
    pub description: Seq<char>,
    pub body: Seq<char>,
    pub parsed_body: Seq<char>,
    pub used_arguments: Seq<Seq<char>>,
    pub dependencies: Seq<DepV>,
}

/// A reusable parametric SQL body template.
#[derive(Debug)]
pub struct MacroFunc {
    name: String,
    arguments: Vec<MacroArgument>,
    description: String,
    body: String,
    parsed_body: String,
    used_arguments: Vec<String>,
    dependencies: Vec<Dependency>,
}

impl View for MacroFunc {
    type V = MacroFuncV;

    closed spec fn view(&self) -> MacroFuncV {
        MacroFuncV {
            name: self.name@,
            arguments: self.arguments@.map_values(|a: MacroArgument| a@),
            description: self.description@,
            body: self.body@,
            parsed_body: self.parsed_body@,
            used_arguments: self.used_arguments@.map_values(|x: String| x@),
            dependencies: self.dependencies@.map_values(|d: Dependency| d@),
        }
    }
}

/// A fresh macro: only the name is set.
pub open spec fn macro_new(name: Seq<char>) -> MacroFuncV {
    MacroFuncV {
        name: name,
        arguments: Seq::empty(),
        description: Seq::empty(),
        body: Seq::empty(),
        parsed_body: Seq::empty(),
        used_arguments: Seq::empty(),
        dependencies: Seq::empty(),
    }
}

/// What closing a macro declaration does: record the placeholders the raw
/// body uses, and normalise the body into the parsed body.
pub open spec fn macro_finish(m: MacroFuncV) -> MacroFuncV {
    MacroFuncV {
        parsed_body: normalized_text(m.body),
        used_arguments: scan_used(m.body, m.used_arguments),
        ..m
    }
}

/// Membership test against the views of a list of strings.
fn contains_str(v: &Vec<String>, s: &str) -> (r: bool)
    ensures
        r == v@.map_values(|x: String| x@).contains(s@),
{
    let ghost views = v@.map_values(|x: String| x@);
    let mut i: usize = 0;
    while i < v.len()
        invariant
            i <= v@.len(),
            views == v@.map_values(|x: String| x@),
            forall|j: int| 0 <= j < i ==> views[j] != s@,
        decreases v@.len() - i,
    {
        if str_eq(v[i].as_str(), s) {
            proof {
                assert(views[i as int] == s@);
            }
            return true;
        }
        i += 1;
    }
    false
}

impl MacroFunc {
    /// A fresh macro with the given name.
    pub fn new(name: &str) -> (r: MacroFunc)
        ensures
            r@ == macro_new(name@),
    {
        let r = MacroFunc {
            name: name.to_owned(),
            arguments: Vec::new(),
            description: String::new(),
            body: String::new(),
            parsed_body: String::new(),
            used_arguments: Vec::new(),
            dependencies: Vec::new(),
        };
        proof {
            assert(r@.arguments =~= macro_new(name@).arguments);
            assert(r@.used_arguments =~= macro_new(name@).used_arguments);
            assert(r@.dependencies =~= macro_new(name@).dependencies);
        }
        r
    }

    /// Append one line of raw body text.
    pub fn add_body(&mut self, body: &str)
        ensures
            final(self)@ == (MacroFuncV { body: append_line(old(self)@.body, body@), ..old(self)@ }),
    {
        push_line(&mut self.body, body);
    }

    pub fn dependencies(&self) -> (r: &Vec<Dependency>)
        ensures
            r@.map_values(|d: Dependency| d@) == self@.dependencies,
    {
        &self.dependencies
    }

    /// Record a dependency.
    pub fn add_dependency(&mut self, dependency: Dependency)
        ensures
            final(self)@ == (MacroFuncV {
                dependencies: old(self)@.dependencies.push(dependency@),
                ..old(self)@
            }),
    {
        let ghost before = self@.dependencies;
        self.dependencies.push(dependency);
        proof {
            assert(self@.dependencies =~= before.push(self.dependencies@.last()@));
        }
    }

    pub fn name(&self) -> (r: &str)
        ensures
            r@ == self@.name,
    {
        self.name.as_str()
    }

    pub fn arguments(&self) -> (r: &Vec<MacroArgument>)
        ensures
            r@.map_values(|a: MacroArgument| a@) == self@.arguments,
    {
        &self.arguments
    }

    pub fn description(&self) -> (r: &str)
        ensures
            r@ == self@.description,
    {
        self.description.as_str()
    }

    pub fn parsed_body(&self) -> (r: &str)
        ensures
            r@ == self@.parsed_body,
    {
        self.parsed_body.as_str()
    }

    pub fn used_arguments(&self) -> (r: &Vec<String>)
        ensures
            r@.map_values(|x: String| x@) == self@.used_arguments,
    {
        &self.used_arguments
    }

    /// Parse a declared parameter list, replacing the previous one.  Commas
    /// inside parentheses do not split.
    pub fn parse_arguments(&mut self, args: &str) -> (r: Result<(), ParseErrorKind>)
        ensures
            r is Ok,
            final(self)@ == (MacroFuncV { arguments: parse_macro_args(args@), ..old(self)@ }),
    {
        let n = args.unicode_len();
        let mut parsed: Vec<MacroArgument> = Vec::new();
        let ghost mut acc_segs: Seq<Seq<char>> = Seq::empty();
        let mut depth: usize = 0;
        let mut seg_start: usize = 0;
        let mut i: usize = 0;
        proof {
            assert(args@.subrange(0, 0) =~= Seq::<char>::empty());
            assert(parsed@.map_values(|a: MacroArgument| a@) =~= acc_segs.map_values(
                |seg: Seq<char>| parse_single_macro_arg(seg),
            ));
        }
        while i < n
            invariant
                seg_start <= i <= n,
                depth <= i,
                n == args@.len(),
                macro_split(args@, 0, 0, Seq::empty(), Seq::empty()) == macro_split(
                    args@,
                    i as int,
                    depth as int,
                    args@.subrange(seg_start as int, i as int),
                    acc_segs,
                ),
                parsed@.map_values(|a: MacroArgument| a@) == acc_segs.map_values(
                    |seg: Seq<char>| parse_single_macro_arg(seg),
                ),
            decreases n - i,
        {
            let ghost cur = args@.subrange(seg_start as int, i as int);
            let c = args.get_char(i);
            if c == '(' {
                depth = depth + 1;
                proof {
                    assert(cur.push(args@[i as int]) =~= args@.subrange(
                        seg_start as int,
                        i as int + 1,
                    ));
                }
                i += 1;
            } else if c == ')' {
                if depth > 0 {
                    depth = depth - 1;
                }
                proof {
                    assert(cur.push(args@[i as int]) =~= args@.subrange(
                        seg_start as int,
                        i as int + 1,
                    ));
                }
                i += 1;
            } else if c == ',' && depth == 0 {
                let seg = trim(args.substring_char(seg_start, i));
                proof {
                    assert(seg@ == trim_spec(cur));
                }
                if seg.unicode_len() > 0 {
                    let one = Self::parse_single_argument(seg);
                    let ghost before = parsed@.map_values(|a: MacroArgument| a@);
                    parsed.push(one);
                    proof {
                        acc_segs = acc_segs.push(seg@);
                        assert(parsed@.map_values(|a: MacroArgument| a@) =~= before.push(
                            parsed@.last()@,
                        ));
                        assert(acc_segs.map_values(|seg: Seq<char>| parse_single_macro_arg(seg))
                            =~= acc_segs.drop_last().map_values(
                            |seg: Seq<char>| parse_single_macro_arg(seg),
                        ).push(parse_single_macro_arg(seg@)));
                    }
                }
                i += 1;
                seg_start = i;
                proof {
                    assert(args@.subrange(seg_start as int, i as int) =~= Seq::<char>::empty());
                }
            } else {
                proof {
                    assert(cur.push(args@[i as int]) =~= args@.subrange(
                        seg_start as int,
                        i as int + 1,
                    ));
                }
                i += 1;
            }
        }
        let seg = trim(args.substring_char(seg_start, n));
        proof {
            assert(seg@ == trim_spec(args@.subrange(seg_start as int, n as int)));
        }
        if seg.unicode_len() > 0 {
            let one = Self::parse_single_argument(seg);
            let ghost before = parsed@.map_values(|a: MacroArgument| a@);
            parsed.push(one);
            proof {
                acc_segs = acc_segs.push(seg@);
                assert(parsed@.map_values(|a: MacroArgument| a@) =~= before.push(parsed@.last()@));
                assert(acc_segs.map_values(|seg: Seq<char>| parse_single_macro_arg(seg))
                    =~= acc_segs.drop_last().map_values(
                    |seg: Seq<char>| parse_single_macro_arg(seg),
                ).push(parse_single_macro_arg(seg@)));
            }
        }
        proof {
            assert(parse_macro_args(args@) == acc_segs.map_values(
                |seg: Seq<char>| parse_single_macro_arg(seg),
            ));
        }
        self.arguments = parsed;
        proof {
            assert(self@.arguments =~= parsed@.map_values(|a: MacroArgument| a@));
            assert(self@.arguments == parse_macro_args(args@));
            assert(self@ == (MacroFuncV { arguments: parse_macro_args(args@), ..old(self)@ }));
        }
        Ok(())
    }

    /// Parse one trimmed, non-empty parameter segment.
    fn parse_single_argument(seg: &str) -> (r: MacroArgument)
        ensures
            r@ == parse_single_macro_arg(seg@),
    {
        proof {
            reveal_strlit("...");
        }
        if starts_with_str(seg, "...") {
            let rest = seg.substring_char(3, seg.unicode_len());
            proof {
                assert(rest@ =~= seg@.skip(3));
            }
            let parts = split_on_char(rest, '(');
            if parts.len() == 2 {
                let name = trim(parts[0].as_str()).to_owned();
                let joiner_t = trim(parts[1].as_str());
                let m = joiner_t.unicode_len();
                let mut j: usize = m;
                proof {
                    assert(joiner_t@.take(m as int) =~= joiner_t@);
                }
                while j > 0 && joiner_t.get_char(j - 1) == ')'
                    invariant
                        j <= m,
                        m == joiner_t@.len(),
                        strip_trailing_parens(joiner_t@) == strip_trailing_parens(
                            joiner_t@.take(j as int),
                        ),
                    decreases j,
                {
                    proof {
                        assert(joiner_t@.take(j as int).drop_last() =~= joiner_t@.take(
                            j as int - 1,
                        ));
                    }
                    j -= 1;
                }
                proof {
                    assert(strip_trailing_parens(joiner_t@.take(j as int)) == joiner_t@.take(
                        j as int,
                    ));
                }
                let joiner = joiner_t.substring_char(0, j).to_owned();
                proof {
                    assert(joiner@ =~= joiner_t@.take(j as int));
                }
                MacroArgument::SpreadJoinedBy(name, joiner)
            } else {
                MacroArgument::Spread(trim(rest).to_owned())
            }
        } else {
            MacroArgument::AsIs(seg.to_owned())
        }
    }

    /// Is every used placeholder matched by a declared parameter?  Fails with
    /// the first one that is not.
    pub fn check_if_all_arguments_exist(&self) -> (r: Result<(), ParseErrorKind>)
        ensures
            match r {
                Ok(()) => first_missing(self@.used_arguments, self@.arguments) is None,
                Err(k) => first_missing(self@.used_arguments, self@.arguments) matches Some(u)
                    && k@ == KindV::MissingArgument(u),
            },
    {
        let ghost used = self@.used_arguments;
        let ghost args = self@.arguments;
        let mut i: usize = 0;
        proof {
            assert(used.skip(0) =~= used);
        }
        while i < self.used_arguments.len()
            invariant
                i <= self.used_arguments@.len(),
                used == self@.used_arguments,
                args == self@.arguments,
                used.len() == self.used_arguments@.len(),
                forall|j: int| 0 <= j < used.len() ==> used[j] == self.used_arguments@[j]@,
                first_missing(used, args) == first_missing(used.skip(i as int), args),
                forall|j: int| 0 <= j < i ==> declared_name(args, used[j]),
            decreases self.used_arguments@.len() - i,
        {
            let u = &self.used_arguments[i];
            let mut found = false;
            let mut k: usize = 0;
            while k < self.arguments.len()
                invariant
                    k <= self.arguments@.len(),
                    args == self@.arguments,
                    args.len() == self.arguments@.len(),
                    forall|j: int| 0 <= j < args.len() ==> args[j] == self.arguments@[j]@,
                    u@ == used[i as int],
                    i < used.len(),
                    used == self@.used_arguments,
                    found ==> declared_name(args, used[i as int]),
                    !found ==> forall|j: int|
                        0 <= j < k ==> macro_arg_name(#[trigger] args[j]) != used[i as int],
                decreases self.arguments@.len() - k,
            {
                let name: &String = match &self.arguments[k] {
                    MacroArgument::AsIs(n) => n,
                    MacroArgument::Spread(n) => n,
                    MacroArgument::SpreadJoinedBy(n, _) => n,
                };
                if str_eq(name.as_str(), u.as_str()) {
                    proof {
                        assert(macro_arg_name(args[k as int]) == used[i as int]);
                    }
                    found = true;
                }
                k += 1;
            }
            if !found {
                proof {
                    assert(!declared_name(args, used[i as int]));
                    assert(used.skip(i as int)[0] == used[i as int]);
                    assert(first_missing(used.skip(i as int), args) == Some(used[i as int]));
                }
                return Err(ParseErrorKind::MissingArgument(u.clone()));
            }
            proof {
                assert(used.skip(i as int)[0] == used[i as int]);
                assert(used.skip(i as int).drop_first() =~= used.skip(i as int + 1));
            }
            i += 1;
        }
        proof {
            assert(used.skip(used.len() as int) =~= Seq::<Seq<char>>::empty());
        }
        Ok(())
    }

    /// Close the declaration: record the used placeholders and normalise the
    /// body.
    pub fn parse_body(&mut self)
        ensures
            final(self)@ == macro_finish(old(self)@),
    {
        let norm = normalize_text(self.body.as_str());
        self.parsed_body = self.body.clone();
        self.parse_used_arguments();
        self.parsed_body = norm;
    }

    /// Scan the parsed body for `{{ ... }}` spans and record the placeholder
    /// names they use.
    pub fn parse_used_arguments(&mut self)
        ensures
            final(self)@ == (MacroFuncV {
                used_arguments: scan_used(old(self)@.parsed_body, old(self)@.used_arguments),
                ..old(self)@
            }),
    {
        let ghost body = self@.parsed_body;
        let n = self.parsed_body.unicode_len();
        let mut pos: usize = 0;
        proof {
            reveal_strlit("{{");
            reveal_strlit("}}");
            assert(body.skip(0) =~= body);
        }
        loop
            invariant
                pos <= n,
                n == self.parsed_body@.len(),
                body == self.parsed_body@,
                self@ == (MacroFuncV { used_arguments: self@.used_arguments, ..old(self)@ }),
                scan_used(body, old(self)@.used_arguments) == scan_used(
                    body.skip(pos as int),
                    self@.used_arguments,
                ),
            decreases n - pos,
        {
            proof {
                reveal_strlit("{{");
                reveal_strlit("}}");
            }
            let ghost rest0 = self.parsed_body@.skip(pos as int);
            let found = {
                let b: &String = &self.parsed_body;
                find_from(b.as_str(), "{{", pos)
            };
            match found {
                Some(i) => {
                    proof {
                        assert forall|k: int| 0 <= k < i - pos implies !has_at(
                            rest0,
                            "{{"@,
                            k,
                        ) by {
                            lemma_has_at_shift(body, "{{"@, pos as int, k);
                        }
                        lemma_has_at_shift(body, "{{"@, pos as int, i - pos);
                        lemma_first_occ_at(rest0, "{{"@, i - pos);
                        assert(rest0.skip(i - pos + 2) =~= body.skip(i + 2));
                    }
                    let ghost rest = body.skip(i + 2);
                    let found2 = {
                        let b: &String = &self.parsed_body;
                        find_from(b.as_str(), "}}", i + 2)
                    };
                    match found2 {
                        Some(j) => {
                            proof {
                                assert forall|k: int| 0 <= k < j - (i + 2) implies !has_at(
                                    rest,
                                    "}}"@,
                                    k,
                                ) by {
                                    lemma_has_at_shift(body, "}}"@, i + 2, k);
                                }
                                lemma_has_at_shift(body, "}}"@, i + 2, j - (i + 2));
                                lemma_first_occ_at(rest, "}}"@, j - (i + 2));
                                assert(rest.take(j - (i + 2)) =~= body.subrange(i + 2, j as int));
                                assert(rest.skip(j - (i + 2) + 2) =~= body.skip(j + 2));
                            }
                            let arg = {
                                let b: &String = &self.parsed_body;
                                trim(b.as_str().substring_char(i + 2, j)).to_owned()
                            };
                            self.record_used(arg.as_str());
                            pos = j + 2;
                        },
                        None => {
                            proof {
                                assert forall|k: int| !has_at(rest, "}}"@, k) by {
                                    if 0 <= k {
                                        lemma_has_at_shift(body, "}}"@, i + 2, k);
                                    }
                                }
                                lemma_first_occ_none(rest, "}}"@);
                                assert(scan_used(rest0, self@.used_arguments)
                                    == self@.used_arguments);
                            }
                            return ;
                        },
                    }
                },
                None => {
                    proof {
                        assert forall|k: int| !has_at(rest0, "{{"@, k) by {
                            if 0 <= k {
                                lemma_has_at_shift(body, "{{"@, pos as int, k);
                            }
                        }
                        lemma_first_occ_none(rest0, "{{"@);
                        assert(scan_used(rest0, self@.used_arguments) == self@.used_arguments);
                    }
                    return ;
                },
            }
        }
    }

    /// Record what one trimmed span text uses.
    fn record_used(&mut self, arg: &str)
        ensures
            final(self)@ == (MacroFuncV {
                used_arguments: used_insert(old(self)@.used_arguments, arg@),
                ..old(self)@
            }),
    {
        proof {
            reveal_strlit("...");
        }
        if arg.unicode_len() == 0 {
            return ;
        }
        if starts_with_str(arg, "...") {
            let a = trim(arg.substring_char(3, arg.unicode_len()));
            proof {
                assert(arg@.subrange(3, arg@.len() as int) =~= arg@.skip(3));
            }
            let an = a.unicode_len();
            let p = find_char_from(a, '(', 0);
            proof {
                lemma_first_char_at(a@, '(', p as int);
            }
            if p < an {
                let name_s = trim(a.substring_char(0, p)).to_owned();
                proof {
                    assert(a@.subrange(0, p as int) =~= a@.take(p as int));
                }
                let joiner_t = trim(a.substring_char(p + 1, an));
                proof {
                    assert(a@.subrange(p as int + 1, an as int) =~= a@.skip(p as int + 1));
                }
                let m = joiner_t.unicode_len();
                let mut j: usize = m;
                proof {
                    assert(joiner_t@.take(m as int) =~= joiner_t@);
                }
                while j > 0 && joiner_t.get_char(j - 1) == ')'
                    invariant
                        j <= m,
                        m == joiner_t@.len(),
                        strip_trailing_parens(joiner_t@) == strip_trailing_parens(
                            joiner_t@.take(j as int),
                        ),
                    decreases j,
                {
                    proof {
                        assert(joiner_t@.take(j as int).drop_last() =~= joiner_t@.take(
                            j as int - 1,
                        ));
                    }
                    j -= 1;
                }
                proof {
                    assert(strip_trailing_parens(joiner_t@.take(j as int)) == joiner_t@.take(
                        j as int,
                    ));
                }
                let joiner = joiner_t.substring_char(0, j);
                proof {
                    assert(joiner@ =~= joiner_t@.take(j as int));
                }
                let mut composite = "...".to_owned();
                composite.append(name_s.as_str());
                composite.append("(");
                composite.append(joiner);
                composite.append(")");
                self.insert_used(name_s.as_str());
                self.insert_used(composite.as_str());
            } else {
                self.insert_used(a);
            }
        } else {
            self.insert_used(arg);
        }
    }

    /// Set-like insertion of one used name.
    fn insert_used(&mut self, x: &str)
        ensures
            final(self)@ == (MacroFuncV {
                used_arguments: used_insert_one(old(self)@.used_arguments, x@),
                ..old(self)@
            }),
    {
        if contains_str(&self.used_arguments, x) {
        } else {
            let ghost before = self@.used_arguments;
            self.used_arguments.push(x.to_owned());
            proof {
                assert(self@.used_arguments =~= before.push(x@));
            }
        }
    }

    /// Render the parsed body against supplied values: each declared
    /// parameter is substituted in declaration order.
    pub fn render_body(&self, arg_values: &Vec<(String, Vec<String>)>) -> (r: String)
        ensures
            r@ == render_args(self@.parsed_body, self@.arguments, values_view(arg_values@)),
    {
        proof {
            reveal_strlit("{{");
            reveal_strlit("{{...");
        }
        let ghost args = self@.arguments;
        let ghost values = values_view(arg_values@);
        let mut result = self.parsed_body.clone();
        let mut i: usize = 0;
        proof {
            assert(args.skip(0) =~= args);
        }
        while i < self.arguments.len()
            invariant
                i <= self.arguments@.len(),
                args == self@.arguments,
                values == values_view(arg_values@),
                args.len() == self.arguments@.len(),
                forall|j: int| 0 <= j < args.len() ==> args[j] == self.arguments@[j]@,
                render_args(self@.parsed_body, args, values) == render_args(
                    result@,
                    args.skip(i as int),
                    values,
                ),
            decreases self.arguments@.len() - i,
        {
            proof {
                reveal_strlit("{{");
                reveal_strlit("{{...");
                assert(args.skip(i as int)[0] == args[i as int]);
                assert(args.skip(i as int).drop_first() =~= args.skip(i as int + 1));
            }
            match &self.arguments[i] {
                MacroArgument::AsIs(name) => {
                    match Self::lookup(arg_values, name.as_str()) {
                        Some(vs) => {
                            if vs.len() > 0 {
                                let mut pat = "{{".to_owned();
                                pat.append(name.as_str());
                                pat.append("}}");
                                let next = replace(result.as_str(), pat.as_str(), vs[0].as_str());
                                result = next;
                            }
                        },
                        None => {},
                    }
                },
                MacroArgument::Spread(name) => {
                    match Self::lookup(arg_values, name.as_str()) {
                        Some(vs) => {
                            let joined = crate::text::join_strings(vs, ", ");
                            let mut pat = "{{...".to_owned();
                            pat.append(name.as_str());
                            pat.append("}}");
                            let next = replace(result.as_str(), pat.as_str(), joined.as_str());
                            result = next;
                        },
                        None => {},
                    }
                },
                MacroArgument::SpreadJoinedBy(name, joiner) => {
                    match Self::lookup(arg_values, name.as_str()) {
                        Some(vs) => {
                            let joined = crate::text::join_strings(vs, joiner.as_str());
                            let mut pat = "{{...".to_owned();
                            pat.append(name.as_str());
                            pat.append("}}");
                            let next = replace(result.as_str(), pat.as_str(), joined.as_str());
                            result = next;
                        },
                        None => {},
                    }
                },
            }
            i += 1;
        }
        proof {
            assert(args.skip(args.len() as int) =~= Seq::<MacroArgV>::empty());
        }
        result
    }

    /// The first list of values supplied under `name`, if any.
    fn lookup<'a>(arg_values: &'a Vec<(String, Vec<String>)>, name: &str) -> (r: Option<
        &'a Vec<String>,
    >)
        ensures
            match r {
                Some(vs) => lookup_values(values_view(arg_values@), name@) == Some(
                    vs@.map_values(|x: String| x@),
                ),
                None => lookup_values(values_view(arg_values@), name@) is None,
            },
    {
        let ghost values = values_view(arg_values@);
        let mut i: usize = 0;
        proof {
            assert(values.skip(0) =~= values);
        }
        while i < arg_values.len()
            invariant
                i <= arg_values@.len(),
                values == values_view(arg_values@),
                values.len() == arg_values@.len(),
                forall|j: int|
                    0 <= j < values.len() ==> values[j] == (
                    arg_values@[j].0@,
                    arg_values@[j].1@.map_values(|x: String| x@),
                ),
                lookup_values(values, name@) == lookup_values(values.skip(i as int), name@),
            decreases arg_values@.len() - i,
        {
            proof {
                assert(values.skip(i as int)[0] == values[i as int]);
                assert(values.skip(i as int).drop_first() =~= values.skip(i as int + 1));
            }
            if str_eq(arg_values[i].0.as_str(), name) {
                return Some(&arg_values[i].1);
            }
            i += 1;
        }
        proof {
            assert(values.skip(values.len() as int) =~= Seq::<(Seq<char>, Seq<Seq<char>>)>::empty());
        }
        None
    }
}

} // verus!
