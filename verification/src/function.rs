//! Stored-function declarations: a typed argument list, a return type, a body
//! that is wrapped into a complete `CREATE OR REPLACE FUNCTION` statement
//! unless the no-boilerplate tag is set, and a completion lock.

use vstd::prelude::*;
use vstd::string::*;

use crate::migration::tag_insert;
use crate::migration_dependency::{DepV, Dependency};
use crate::parse_errors::{KindV, ParseErrorKind};
use crate::text::{
    append_line, eq_ignore_case, lemma_seq_join_push, normalize_text, normalized_text, push_line,
    seq_join, split_char_spec, split_on_char, str_eq_ignore_case, trim, trim_spec,
};

verus! {

/// A tag a stored function may carry.
#[derive(Debug, Clone, Copy, PartialEq, Eq, Hash, Structural)]
pub enum FunctionTags {
    NoBoilerplate,
}

/// How a single token parses as a function tag: case-insensitively, with any
/// unknown token rejected.
pub open spec fn parse_function_tag(s: Seq<char>) -> Result<FunctionTags, KindV> {
    if eq_ignore_case(s, "noboilerplate"@) {
        Ok(FunctionTags::NoBoilerplate)
    } else {
        Err(KindV::UnknownTag(s))
    }
}

impl FunctionTags {
    /// Parse one token.
    pub fn try_from(value: &str) -> (r: Result<FunctionTags, ParseErrorKind>)
        ensures
            match r {
                Ok(t) => parse_function_tag(value@) == Ok::<FunctionTags, KindV>(t),
                Err(k) => parse_function_tag(value@) == Err::<FunctionTags, KindV>(k@),
            },
    {
        if str_eq_ignore_case(value, "noboilerplate") {
            Ok(FunctionTags::NoBoilerplate)
        } else {
            Err(ParseErrorKind::UnknownTag(value.to_owned()))
        }
    }
}

/// Mathematical image of a `FuncArgument`.
pub struct FuncArgV {
    pub name: Seq<char>,
    pub arg_type: Seq<char>,
}

/// One declared argument: a name and a type.
#[derive(Debug, Clone)]
pub struct FuncArgument {
    pub name: String,
    pub arg_type: String,
}

impl View for FuncArgument {
    type V = FuncArgV;

    open spec fn view(&self) -> FuncArgV {
        FuncArgV { name: self.name@, arg_type: self.arg_type@ }
    }
}

impl FuncArgument {
    pub fn new(name: String, arg_type: String) -> (r: FuncArgument)
        ensures
            r@ == (FuncArgV { name: name@, arg_type: arg_type@ }),
    {
        FuncArgument { name, arg_type }
    }
}

/// Mathematical image of a `Function`.
pub struct FunctionV {
    pub name: Seq<char>,
    pub arguments: Seq<FuncArgV>,
    pub return_type: Option<Seq<char>>,
    pub tags: Seq<FunctionTags>,
    pub description: Seq<char>,
    pub body: Seq<char>,
    pub parsed_body: Seq<char>,
    pub language: Option<Seq<char>>,
    pub complete: bool,
    pub dependencies: Seq<DepV>,
}

/// A stored-function declaration under construction or completed.
#[derive(Debug)]
pub struct Function {
    name: String,
    arguments: Vec<FuncArgument>,
    return_type: Option<String>,
    tags: Vec<FunctionTags>,
    description: String,
    body: String,
    parsed_body: String,
    language: Option<String>,
    complete: bool,
    dependencies: Vec<Dependency>,
}

impl View for Function {
    type V = FunctionV;

    closed spec fn view(&self) -> FunctionV {
        FunctionV {
            name: self.name@,
            arguments: self.arguments@.map_values(|a: FuncArgument| a@),
            return_type: match self.return_type {
                Some(ref t) => Some(t@),
                None => None,
            },
            tags: self.tags@,
            description: self.description@,
            body: self.body@,
            parsed_body: self.parsed_body@,
            language: match self.language {
                Some(ref l) => Some(l@),
                None => None,
            },
            complete: self.complete,
            dependencies: self.dependencies@.map_values(|d: Dependency| d@),
        }
    }
}

/// A fresh function: only the name is set.
pub open spec fn function_new(name: Seq<char>) -> FunctionV {
    FunctionV {
        name: name,
        arguments: Seq::empty(),
        return_type: None,
        tags: Seq::empty(),
        description: Seq::empty(),
        body: Seq::empty(),
        parsed_body: Seq::empty(),
        language: None,
        complete: false,
        dependencies: Seq::empty(),
    }
}

/// How one comma segment of a declared argument list parses: trimmed, it must
/// consist of a name and a type joined by exactly one colon.
pub open spec fn parse_one_func_arg(seg: Seq<char>) -> Result<FuncArgV, KindV> {
    let parts = split_char_spec(trim_spec(seg), ':');
    if parts.len() == 2 {
        Ok(FuncArgV { name: trim_spec(parts[0]), arg_type: trim_spec(parts[1]) })
    } else {
        Err(KindV::MissingArgumentType)
    }
}

/// How a sequence of comma segments parses, stopping at the first bad one.
pub open spec fn parse_func_arg_segments(segs: Seq<Seq<char>>) -> Result<Seq<FuncArgV>, KindV>
    decreases segs.len(),
{
    if segs.len() == 0 {
        Ok(Seq::empty())
    } else {
        match parse_one_func_arg(segs[0]) {
            Err(e) => Err(e),
            Ok(a) => match parse_func_arg_segments(segs.drop_first()) {
                Err(e) => Err(e),
                Ok(rest) => Ok(seq![a] + rest),
            },
        }
    }
}

/// How a declared argument list parses.
pub open spec fn parse_func_args(s: Seq<char>) -> Result<Seq<FuncArgV>, KindV> {
    parse_func_arg_segments(split_char_spec(s, ','))
}

/// The return type a function reports: `VOID` unless one was declared.
pub open spec fn function_return_type(f: FunctionV) -> Seq<char> {
    match f.return_type {
        Some(t) => t,
        None => "VOID"@,
    }
}

/// The target language a function reports: `plpgsql` unless one was set.
pub open spec fn function_language(f: FunctionV) -> Seq<char> {
    match f.language {
        Some(l) => l,
        None => "plpgsql"@,
    }
}

/// The complete `CREATE OR REPLACE FUNCTION` statement wrapped around the
/// normalised body.
pub open spec fn wrapped_body(f: FunctionV) -> Seq<char> {
    "CREATE OR REPLACE FUNCTION "@ + f.name + "("@ + seq_join(
        f.arguments.map_values(|a: FuncArgV| a.name + " "@ + a.arg_type),
        ", "@,
    ) + ") RETURNS "@ + function_return_type(f) + " AS $$\n"@ + normalized_text(f.body)
        + "\n$$ LANGUAGE "@ + function_language(f) + ";"@
}

/// What closing a function declaration does: wrap the body in boilerplate
/// unless the no-boilerplate tag is set (and the completion flag is still
/// clear), in which case only the completion flag is raised.
pub open spec fn function_finish(f: FunctionV) -> FunctionV {
    if !f.tags.contains(FunctionTags::NoBoilerplate) || f.complete {
        FunctionV { parsed_body: wrapped_body(f), ..f }
    } else {
        FunctionV { complete: true, ..f }
    }
}

impl Function {
    /// A fresh function with the given name.
    pub fn new(name: &str) -> (r: Function)
        ensures
            r@ == function_new(name@),
    {
        let r = Function {
            name: name.to_owned(),
            arguments: Vec::new(),
            return_type: None,
            tags: Vec::new(),
            description: String::new(),
            body: String::new(),
            parsed_body: String::new(),
            language: None,
            complete: false,
            dependencies: Vec::new(),
        };
        proof {
            assert(r@.arguments =~= function_new(name@).arguments);
            assert(r@.dependencies =~= function_new(name@).dependencies);
        }
        r
    }

    pub fn name(&self) -> (r: &str)
        ensures
            r@ == self@.name,
    {
        self.name.as_str()
    }

    pub fn parsed_body(&self) -> (r: &str)
        ensures
            r@ == self@.parsed_body,
    {
        self.parsed_body.as_str()
    }

    /// Has the completion flag been raised?
    pub fn is_complete(&self) -> (r: bool)
        ensures
            r == self@.complete,
    {
        self.complete
    }

    pub fn arguments(&self) -> (r: &Vec<FuncArgument>)
        ensures
            r@.map_values(|a: FuncArgument| a@) == self@.arguments,
    {
        &self.arguments
    }

    /// The declared return type, or `VOID`.
    pub fn return_type(&self) -> (r: String)
        ensures
            r@ == function_return_type(self@),
    {
        match self.return_type {
            Some(ref t) => t.clone(),
            None => "VOID".to_owned(),
        }
    }

    pub fn description(&self) -> (r: &str)
        ensures
            r@ == self@.description,
    {
        self.description.as_str()
    }

    pub fn body(&self) -> (r: &str)
        ensures
            r@ == self@.body,
    {
        self.body.as_str()
    }

    /// The target language, or `plpgsql`.
    pub fn language(&self) -> (r: String)
        ensures
            r@ == function_language(self@),
    {
        match self.language {
            Some(ref l) => l.clone(),
            None => "plpgsql".to_owned(),
        }
    }

    pub fn tags(&self) -> (r: &Vec<FunctionTags>)
        ensures
            r@ == self@.tags,
    {
        &self.tags
    }

    pub fn dependencies(&self) -> (r: &Vec<Dependency>)
        ensures
            r@.map_values(|d: Dependency| d@) == self@.dependencies,
    {
        &self.dependencies
    }

    /// Record a dependency.
    pub fn add_dependency(&mut self, dependency: Dependency)
        ensures
            final(self)@ == (FunctionV {
                dependencies: old(self)@.dependencies.push(dependency@),
                ..old(self)@
            }),
    {
        let ghost before = self@.dependencies;
        self.dependencies.push(dependency);
        proof {
            assert(self@.dependencies =~= before.push(self.dependencies@.last()@));
        }
    }

    /// Parse one tag token and add it to the tag set.  A completed function
    /// can no longer be changed.
    pub fn add_tag(&mut self, tag: &str) -> (r: Result<bool, ParseErrorKind>)
        requires
            !old(self)@.complete,
        ensures
            match r {
                Ok(b) => parse_function_tag(tag@) matches Ok(t) && final(self)@ == (FunctionV {
                    tags: tag_insert(old(self)@.tags, t),
                    ..old(self)@
                }) && b == !old(self)@.tags.contains(t),
                Err(k) => parse_function_tag(tag@) == Err::<FunctionTags, KindV>(k@) && *final(self)
                    == *old(self),
            },
    {
        let parsed = match FunctionTags::try_from(tag) {
            Ok(t) => t,
            Err(k) => {
                return Err(k);
            },
        };
        let mut found = false;
        let mut i: usize = 0;
        while i < self.tags.len()
            invariant
                i <= self.tags@.len(),
                found == exists|j: int| 0 <= j < i && self.tags@[j] == parsed,
            decreases self.tags@.len() - i,
        {
            if self.tags[i] == parsed {
                found = true;
            }
            i += 1;
        }
        if found {
            Ok(false)
        } else {
            self.tags.push(parsed);
            Ok(true)
        }
    }

    /// Parse a comma-separated `name: type` list and append the arguments.
    /// A completed function can no longer be changed.
    pub fn parse_arguments(&mut self, args: &str) -> (r: Result<(), ParseErrorKind>)
        requires
            !old(self)@.complete,
        ensures
            match r {
                Ok(()) => parse_func_args(args@) matches Ok(parsed) && final(self)@ == (FunctionV {
                    arguments: old(self)@.arguments + parsed,
                    ..old(self)@
                }),
                Err(k) => parse_func_args(args@) == Err::<Seq<FuncArgV>, KindV>(k@)
                    && final(self)@ == old(self)@,
            },
    {
        let segments = split_on_char(args, ',');
        let ghost segs = split_char_spec(args@, ',');
        let mut parsed: Vec<FuncArgument> = Vec::new();
        let mut i: usize = 0;
        proof {
            assert(segs.skip(0) =~= segs);
            assert(parsed@.map_values(|a: FuncArgument| a@) =~= Seq::<FuncArgV>::empty());
        }
        let mut bad = false;
        while i < segments.len() && !bad
            invariant
                self@ == old(self)@,
                i <= segments@.len(),
                segments@.len() == segs.len(),
                forall|j: int| 0 <= j < segs.len() ==> segments@[j]@ == segs[j],
                bad ==> parse_func_arg_segments(segs) == Err::<Seq<FuncArgV>, KindV>(
                    KindV::MissingArgumentType,
                ),
                !bad ==> (parse_func_arg_segments(segs) matches Ok(all) ==> all
                    == parsed@.map_values(|a: FuncArgument| a@) + parse_func_arg_segments(
                    segs.skip(i as int),
                )->Ok_0),
                !bad && parse_func_arg_segments(segs) is Ok ==> parse_func_arg_segments(
                    segs.skip(i as int),
                ) is Ok,
                !bad && parse_func_arg_segments(segs) is Err ==> parse_func_arg_segments(
                    segs.skip(i as int),
                ) == parse_func_arg_segments(segs),
            decreases segments@.len() - i + (if bad { 0int } else { 1int }),
        {
            let ghost rest = segs.skip(i as int);
            proof {
                assert(rest.len() > 0);
                assert(rest[0] == segs[i as int]);
                assert(rest.drop_first() =~= segs.skip(i as int + 1));
            }
            let t = trim(segments[i].as_str());
            let inner = split_on_char(t, ':');
            if inner.len() == 2 {
                let name = trim(inner[0].as_str()).to_owned();
                let arg_type = trim(inner[1].as_str()).to_owned();
                let ghost before = parsed@.map_values(|a: FuncArgument| a@);
                parsed.push(FuncArgument { name, arg_type });
                proof {
                    assert(parse_one_func_arg(segs[i as int]) matches Ok(a) && a == parsed@.map_values(
                        |a: FuncArgument| a@,
                    ).last());
                    assert(parsed@.map_values(|a: FuncArgument| a@) =~= before.push(
                        parsed@.last()@,
                    ));
                    if parse_func_arg_segments(segs) is Ok {
                        assert(before + (seq![parsed@.last()@] + parse_func_arg_segments(
                            segs.skip(i as int + 1),
                        )->Ok_0) =~= before.push(parsed@.last()@) + parse_func_arg_segments(
                            segs.skip(i as int + 1),
                        )->Ok_0);
                    }
                }
                i += 1;
            } else {
                proof {
                    assert(parse_one_func_arg(segs[i as int]) == Err::<FuncArgV, KindV>(
                        KindV::MissingArgumentType,
                    ));
                    assert(parse_func_arg_segments(segs.skip(i as int)) == Err::<
                        Seq<FuncArgV>,
                        KindV,
                    >(KindV::MissingArgumentType));
                    assert(parse_func_arg_segments(segs) is Err);
                    assert(parse_func_arg_segments(segs) == Err::<Seq<FuncArgV>, KindV>(
                        KindV::MissingArgumentType,
                    ));
                }
                bad = true;
            }
        }
        if bad {
            return Err(ParseErrorKind::MissingArgumentType);
        }
        proof {
            assert(segs.skip(segs.len() as int) =~= Seq::<Seq<char>>::empty());
            assert(parse_func_arg_segments(segs) is Ok);
        }
        let ghost added = parsed@.map_values(|a: FuncArgument| a@);
        let mut k: usize = 0;
        let ghost base = self@.arguments;
        while k < parsed.len()
            invariant
                k <= parsed@.len(),
                added == parsed@.map_values(|a: FuncArgument| a@),
                self@.arguments == base + added.take(k as int),
                self@ == (FunctionV { arguments: base + added.take(k as int), ..old(self)@ }),
            decreases parsed@.len() - k,
        {
            let ghost cur = self@.arguments;
            let a = FuncArgument {
                name: parsed[k].name.clone(),
                arg_type: parsed[k].arg_type.clone(),
            };
            proof {
                assert(a@ == added[k as int]);
            }
            self.arguments.push(a);
            proof {
                assert(self@.arguments =~= cur.push(added[k as int]));
                assert(cur.push(added[k as int]) =~= base + added.take(k as int + 1));
            }
            k += 1;
        }
        proof {
            assert(added.take(parsed@.len() as int) =~= added);
            assert(base + added == old(self)@.arguments + parse_func_args(args@)->Ok_0);
        }
        Ok(())
    }

    /// Set the declared return type.  A completed function can no longer be
    /// changed.
    pub fn set_return_type(&mut self, return_type: String)
        requires
            !old(self)@.complete,
        ensures
            final(self)@ == (FunctionV { return_type: Some(return_type@), ..old(self)@ }),
    {
        self.return_type = Some(return_type);
    }

    /// Append one line of description text.  A completed function can no
    /// longer be changed.
    pub fn add_description(&mut self, description: &str)
        requires
            !old(self)@.complete,
        ensures
            final(self)@ == (FunctionV {
                description: append_line(old(self)@.description, description@),
                ..old(self)@
            }),
    {
        push_line(&mut self.description, description);
    }

    /// Append one line of raw body text.  A completed function can no longer
    /// be changed.
    pub fn add_body(&mut self, body: &str)
        requires
            !old(self)@.complete,
        ensures
            final(self)@ == (FunctionV { body: append_line(old(self)@.body, body@), ..old(self)@ }),
    {
        push_line(&mut self.body, body);
    }

    /// Set the target language.  A completed function can no longer be
    /// changed.
    pub fn set_language(&mut self, language: String)
        requires
            !old(self)@.complete,
        ensures
            final(self)@ == (FunctionV { language: Some(language@), ..old(self)@ }),
    {
        self.language = Some(language);
    }

    /// Close the declaration: wrap the body in boilerplate unless the
    /// no-boilerplate tag is set, in which case raise the completion flag.
    pub fn put_boilerplate(&mut self)
        ensures
            final(self)@ == function_finish(old(self)@),
    {
        let no_boilerplate = crate::function::contains_function_tag(
            &self.tags,
            FunctionTags::NoBoilerplate,
        );
        if !no_boilerplate || self.complete {
            let norm = normalize_text(self.body.as_str());
            let mut out = "CREATE OR REPLACE FUNCTION ".to_owned();
            out.append(self.name.as_str());
            out.append("(");
            let ghost argseqs = self@.arguments.map_values(
                |a: FuncArgV| a.name + " "@ + a.arg_type,
            );
            let mut i: usize = 0;
            let ghost head = "CREATE OR REPLACE FUNCTION "@ + self@.name + "("@;
            proof {
                assert(argseqs.take(0) =~= Seq::<Seq<char>>::empty());
                assert(out@ =~= head + seq_join(argseqs.take(0), ", "@));
            }
            while i < self.arguments.len()
                invariant
                    i <= self.arguments@.len(),
                    argseqs == self@.arguments.map_values(
                        |a: FuncArgV| a.name + " "@ + a.arg_type,
                    ),
                    argseqs.len() == self.arguments@.len(),
                    forall|j: int|
                        0 <= j < argseqs.len() ==> argseqs[j] == self.arguments@[j]@.name + " "@
                            + self.arguments@[j]@.arg_type,
                    out@ == head + seq_join(argseqs.take(i as int), ", "@),
                decreases self.arguments@.len() - i,
            {
                if i > 0 {
                    out.append(", ");
                }
                out.append(self.arguments[i].name.as_str());
                out.append(" ");
                out.append(self.arguments[i].arg_type.as_str());
                proof {
                    assert(argseqs.take(i as int + 1) =~= argseqs.take(i as int).push(
                        argseqs[i as int],
                    ));
                    lemma_seq_join_push(argseqs.take(i as int), ", "@, argseqs[i as int]);
                    if i > 0 {
                        assert(seq_join(argseqs.take(i as int + 1), ", "@) == seq_join(
                            argseqs.take(i as int),
                            ", "@,
                        ) + ", "@ + argseqs[i as int]);
                        assert(out@ =~= head + seq_join(argseqs.take(i as int + 1), ", "@));
                    } else {
                        assert(seq_join(argseqs.take(i as int + 1), ", "@) == argseqs[i as int]);
                        assert(out@ =~= head + seq_join(argseqs.take(i as int + 1), ", "@));
                    }
                }
                i += 1;
            }
            proof {
                assert(argseqs.take(argseqs.len() as int) =~= argseqs);
            }
            out.append(") RETURNS ");
            match self.return_type {
                Some(ref t) => out.append(t.as_str()),
                None => out.append("VOID"),
            }
            out.append(" AS $$\n");
            out.append(norm.as_str());
            out.append("\n$$ LANGUAGE ");
            match self.language {
                Some(ref l) => out.append(l.as_str()),
                None => out.append("plpgsql"),
            }
            out.append(";");
            proof {
                assert(out@ =~= wrapped_body(old(self)@));
            }
            self.parsed_body = out;
        } else {
            self.complete = true;
        }
    }
}

/// Membership test on a function-tag list.
pub fn contains_function_tag(v: &Vec<FunctionTags>, t: FunctionTags) -> (r: bool)
    ensures
        r == v@.contains(t),
{
    let mut i: usize = 0;
    while i < v.len()
        invariant
            i <= v@.len(),
            forall|j: int| 0 <= j < i ==> v@[j] != t,
        decreases v@.len() - i,
    {
        if v[i] == t {
            return true;
        }
        i += 1;
    }
    false
}

} // verus!
