//! Invocation parameters: table filters and ordering rules.

use vstd::prelude::*;
use crate::schema::strings_view;

verus! {

/// `s` without its leading `prefix`, if it starts with it.
pub open spec fn stripped(s: Seq<char>, prefix: Seq<char>) -> Option<Seq<char>> {
    if prefix.len() <= s.len() && s.take(prefix.len() as int) == prefix {
        Some(s.skip(prefix.len() as int))
    } else {
        None
    }
}

/// `s` without its leading `prefix`, if it starts with it.
pub fn strip_prefix(s: &String, prefix: &str) -> (r: Option<String>)
    ensures
        r is Some <==> stripped(s@, prefix@) is Some,
        r is Some ==> r->0@ == stripped(s@, prefix@)->0,
{
    let n = s.as_str().unicode_len();
    let m = prefix.unicode_len();
    if m > n {
        return None;
    }
    let mut i: usize = 0;
    while i < m
        invariant
            i <= m <= n,
            n == s@.len(),
            m == prefix@.len(),
            forall|j: int| 0 <= j < i ==> s@[j] == prefix@[j],
        decreases m - i,
    {
        if s.as_str().get_char(i) != prefix.get_char(i) {
            assert(s@.take(m as int)[i as int] != prefix@[i as int]);
            return None;
        }
        i = i + 1;
    }
    assert(s@.take(m as int) =~= prefix@);
    let rest = s.as_str().substring_char(m, n);
    assert(rest@ =~= s@.skip(m as int));
    Some(rest.to_owned())
}

/// The pieces of `s` between commas, in order (one piece when it holds none).
pub open spec fn split_commas(s: Seq<char>) -> Seq<Seq<char>>
    decreases s.len(),
{
    if s.len() == 0 {
        seq![seq![]]
    } else {
        let prev = split_commas(s.drop_last());
        if s.last() == ',' {
            prev.push(seq![])
        } else {
            prev.update(prev.len() - 1, prev.last().push(s.last()))
        }
    }
}

proof fn lemma_split_nonempty(s: Seq<char>)
    ensures
        split_commas(s).len() >= 1,
    decreases s.len(),
{
    if s.len() > 0 {
        lemma_split_nonempty(s.drop_last());
    }
}

/// The pieces of `s` between commas.
pub fn split_on_commas(s: &String) -> (r: Vec<String>)
    ensures
        strings_view(r@) == split_commas(s@),
{
    let n = s.as_str().unicode_len();
    let mut parts: Vec<String> = Vec::new();
    let mut start: usize = 0;
    let mut i: usize = 0;
    assert(s@.take(0) =~= seq![]);
    assert(strings_view(parts@).push(s@.subrange(0, 0)) =~= seq![seq![]]);
    while i < n
        invariant
            start <= i <= n,
            n == s@.len(),
            split_commas(s@.take(i as int)) =~= strings_view(parts@).push(s@.subrange(start as int, i as int)),
        decreases n - i,
    {
        let c = s.as_str().get_char(i);
        assert(s@.take(i + 1).drop_last() =~= s@.take(i as int));
        assert(s@.take(i + 1).last() == c);
        if c == ',' {
            let piece = s.as_str().substring_char(start, i);
            let ghost before = strings_view(parts@);
            parts.push(piece.to_owned());
            assert(strings_view(parts@) =~= before.push(piece@));
            start = i + 1;
            assert(s@.subrange(start as int, i + 1) =~= seq![]);
        } else {
            assert(s@.subrange(start as int, i + 1) =~= s@.subrange(start as int, i as int).push(c));
        }
        i = i + 1;
    }
    let piece = s.as_str().substring_char(start, n);
    let ghost before = strings_view(parts@);
    parts.push(piece.to_owned());
    assert(strings_view(parts@) =~= before.push(piece@));
    assert(s@.take(n as int) =~= s@);
    parts
}


/// An ordering rule of a table: a row of `related_table` is inserted first,
/// and its `related_column` value is written into the table's `local_column`.
#[derive(Debug, PartialEq, Eq)]
pub struct Rule {
    pub local_column: String,
    pub related_table: String,
    pub related_column: String,
}

pub struct RuleModel {
    pub local_column: Seq<char>,
    pub related_table: Seq<char>,
    pub related_column: Seq<char>,
}

impl View for Rule {
    type V = RuleModel;

    open spec fn view(&self) -> RuleModel {
        RuleModel {
            local_column: self.local_column@,
            related_table: self.related_table@,
            related_column: self.related_column@,
        }
    }
}

pub open spec fn rules_view(rules: Seq<(String, Rule)>) -> Seq<(Seq<char>, RuleModel)> {
    rules.map_values(|e: (String, Rule)| (e.0@, e.1@))
}

/// Table filters and ordering rules, in the order they were given.
#[derive(Debug, PartialEq, Eq)]
pub struct Parameters {
    /// Allow-list: when not empty, only these tables are drawn.
    pub onlys: Vec<String>,
    /// Deny-set: these tables are never used.
    pub skips: Vec<String>,
    /// `RequireAfter` rules by table; a later entry for a table replaces an earlier one.
    pub require_afters: Vec<(String, Rule)>,
    /// `RequireBefore` rules by table; a later entry for a table replaces an earlier one.
    pub require_befores: Vec<(String, Rule)>,
}

pub struct ParamsModel {
    pub onlys: Seq<Seq<char>>,
    pub skips: Seq<Seq<char>>,
    pub afters: Seq<(Seq<char>, RuleModel)>,
    pub befores: Seq<(Seq<char>, RuleModel)>,
}

impl View for Parameters {
    type V = ParamsModel;

    open spec fn view(&self) -> ParamsModel {
        ParamsModel {
            onlys: strings_view(self.onlys@),
            skips: strings_view(self.skips@),
            afters: rules_view(self.require_afters@),
            befores: rules_view(self.require_befores@),
        }
    }
}

impl ParamsModel {
    /// The allow-list and the deny-set are not both given.
    pub open spec fn wf(self) -> bool {
        self.onlys.len() == 0 || self.skips.len() == 0
    }
}

/// Why the invocation parameters are refused.
#[derive(Debug, PartialEq, Eq)]
pub enum ConfigError {
    /// A rule argument that is not four comma-separated names.
    MalformedRule { argument: String },
    /// An argument that is no known option.
    UnknownOption { argument: String },
    /// The usage was asked for.
    Usage,
    /// An allow-list and a deny-set were both given.
    FiltersCombined,
}

pub enum ConfigErrorModel {
    MalformedRule { argument: Seq<char> },
    UnknownOption { argument: Seq<char> },
    Usage,
    FiltersCombined,
}

impl View for ConfigError {
    type V = ConfigErrorModel;

    open spec fn view(&self) -> ConfigErrorModel {
        match self {
            ConfigError::MalformedRule { argument } => ConfigErrorModel::MalformedRule { argument: argument@ },
            ConfigError::UnknownOption { argument } => ConfigErrorModel::UnknownOption { argument: argument@ },
            ConfigError::Usage => ConfigErrorModel::Usage,
            ConfigError::FiltersCombined => ConfigErrorModel::FiltersCombined,
        }
    }
}

/// The (table, rule) given by four comma-separated names.
pub open spec fn rule_of(parts: Seq<Seq<char>>) -> Option<(Seq<char>, RuleModel)> {
    if parts.len() == 4 {
        Some((parts[0], RuleModel { local_column: parts[1], related_table: parts[2], related_column: parts[3] }))
    } else {
        None
    }
}

/// The parameters after one more argument.
pub open spec fn apply_argument(p: ParamsModel, arg: Seq<char>) -> Result<ParamsModel, ConfigErrorModel> {
    if stripped(arg, "--require-after="@) is Some {
        let rest = stripped(arg, "--require-after="@)->0;
        match rule_of(split_commas(rest)) {
            Some(r) => Ok(ParamsModel { onlys: p.onlys, skips: p.skips, afters: p.afters.push(r), befores: p.befores }),
            None => Err(ConfigErrorModel::MalformedRule { argument: rest }),
        }
    } else if stripped(arg, "--require-before="@) is Some {
        let rest = stripped(arg, "--require-before="@)->0;
        match rule_of(split_commas(rest)) {
            Some(r) => Ok(ParamsModel { onlys: p.onlys, skips: p.skips, afters: p.afters, befores: p.befores.push(r) }),
            None => Err(ConfigErrorModel::MalformedRule { argument: rest }),
        }
    } else if stripped(arg, "--only="@) is Some {
        Ok(ParamsModel { onlys: p.onlys.push(stripped(arg, "--only="@)->0), skips: p.skips, afters: p.afters, befores: p.befores })
    } else if stripped(arg, "--skip="@) is Some {
        Ok(ParamsModel { onlys: p.onlys, skips: p.skips.push(stripped(arg, "--skip="@)->0), afters: p.afters, befores: p.befores })
    } else if arg == "--help"@ {
        Err(ConfigErrorModel::Usage)
    } else {
        Err(ConfigErrorModel::UnknownOption { argument: arg })
    }
}

/// The parameters given by `args`, in order, or the first argument's error.
pub open spec fn apply_arguments(args: Seq<Seq<char>>) -> Result<ParamsModel, ConfigErrorModel>
    decreases args.len(),
{
    if args.len() == 0 {
        Ok(ParamsModel { onlys: seq![], skips: seq![], afters: seq![], befores: seq![] })
    } else {
        match apply_arguments(args.drop_last()) {
            Err(e) => Err(e),
            Ok(p) => apply_argument(p, args.last()),
        }
    }
}

/// The parameters given by `args`, refusing an allow-list beside a deny-set.
pub open spec fn parsed_parameters(args: Seq<Seq<char>>) -> Result<ParamsModel, ConfigErrorModel> {
    match apply_arguments(args) {
        Err(e) => Err(e),
        Ok(p) => if p.wf() {
            Ok(p)
        } else {
            Err(ConfigErrorModel::FiltersCombined)
        },
    }
}

fn parse_rule(rest: String) -> (r: Result<(String, Rule), ConfigError>)
    ensures
        r is Ok <==> rule_of(split_commas(rest@)) is Some,
        r is Ok ==> ((r->Ok_0).0@, (r->Ok_0).1@) == rule_of(split_commas(rest@))->0,
        r is Err ==> r->Err_0@ == (ConfigErrorModel::MalformedRule { argument: rest@ }),
{
    let parts = split_on_commas(&rest);
    if parts.len() == 4 {
        Ok(
            (
                parts[0].clone(),
                Rule {
                    local_column: parts[1].clone(),
                    related_table: parts[2].clone(),
                    related_column: parts[3].clone(),
                },
            ),
        )
    } else {
        Err(ConfigError::MalformedRule { argument: rest })
    }
}

fn apply(p: &mut Parameters, arg: &String) -> (r: Result<(), ConfigError>)
    ensures
        r is Ok <==> apply_argument(old(p)@, arg@) is Ok,
        r is Ok ==> final(p)@ == apply_argument(old(p)@, arg@)->Ok_0,
        r is Err ==> r->Err_0@ == apply_argument(old(p)@, arg@)->Err_0,
{
    if let Some(rest) = strip_prefix(arg, "--require-after=") {
        let rule = parse_rule(rest)?;
        p.require_afters.push(rule);
        assert(final(p)@.afters =~= old(p)@.afters.push((rule.0@, rule.1@)));
        Ok(())
    } else if let Some(rest) = strip_prefix(arg, "--require-before=") {
        let rule = parse_rule(rest)?;
        p.require_befores.push(rule);
        assert(final(p)@.befores =~= old(p)@.befores.push((rule.0@, rule.1@)));
        Ok(())
    } else if let Some(rest) = strip_prefix(arg, "--only=") {
        p.onlys.push(rest);
        assert(final(p)@.onlys =~= old(p)@.onlys.push(rest@));
        Ok(())
    } else if let Some(rest) = strip_prefix(arg, "--skip=") {
        p.skips.push(rest);
        assert(final(p)@.skips =~= old(p)@.skips.push(rest@));
        Ok(())
    } else if crate::schema::text_is(arg, "--help") {
        Err(ConfigError::Usage)
    } else {
        Err(ConfigError::UnknownOption { argument: arg.clone() })
    }
}

/// Reads the invocation arguments: `--only=<table>` and `--skip=<table>`
/// (repeatable, not both), `--require-after=` and `--require-before=` with
/// `table,column,relatedTable,relatedColumn`. Fails on the first malformed or
/// unknown argument, on `--help`, and when both filters are given.
pub fn parse_arguments(args: &Vec<String>) -> (r: Result<Parameters, ConfigError>)
    ensures
        r is Ok <==> parsed_parameters(strings_view(args@)) is Ok,
        r is Ok ==> r->Ok_0@ == parsed_parameters(strings_view(args@))->Ok_0,
        r is Err ==> r->Err_0@ == parsed_parameters(strings_view(args@))->Err_0,
{
    let ghost sv = strings_view(args@);
    let mut p = Parameters { onlys: Vec::new(), skips: Vec::new(), require_afters: Vec::new(), require_befores: Vec::new() };
    assert(p@.onlys =~= seq![]);
    assert(p@.skips =~= seq![]);
    assert(p@.afters =~= seq![]);
    assert(p@.befores =~= seq![]);
    assert(sv.take(0) =~= seq![]);
    let mut i: usize = 0;
    while i < args.len()
        invariant
            i <= args@.len(),
            sv == strings_view(args@),
            apply_arguments(sv.take(i as int)) is Ok,
            p@ == apply_arguments(sv.take(i as int))->Ok_0,
        decreases args@.len() - i,
    {
        assert(sv.take(i + 1).drop_last() =~= sv.take(i as int));
        assert(sv.take(i + 1).last() == args@[i as int]@);
        match apply(&mut p, &args[i]) {
            Ok(()) => {},
            Err(e) => {
                proof {
                    lemma_arguments_error_persists(sv, i + 1);
                }
                return Err(e);
            },
        }
        i = i + 1;
    }
    assert(sv.take(args@.len() as int) =~= sv);
    if p.onlys.len() > 0 && p.skips.len() > 0 {
        return Err(ConfigError::FiltersCombined);
    }
    Ok(p)
}

proof fn lemma_arguments_error_persists(args: Seq<Seq<char>>, k: int)
    requires
        0 <= k <= args.len(),
        apply_arguments(args.take(k)) is Err,
    ensures
        apply_arguments(args) == apply_arguments(args.take(k)),
    decreases args.len() - k,
{
    if k < args.len() {
        assert(args.take(k + 1).drop_last() == args.take(k));
        lemma_arguments_error_persists(args, k + 1);
    } else {
        assert(args.take(k) == args);
    }
}

/// The rule that the last entry for `table` gives, if any.
pub open spec fn last_rule(rules: Seq<(Seq<char>, RuleModel)>, table: Seq<char>) -> Option<RuleModel>
    decreases rules.len(),
{
    if rules.len() == 0 {
        None
    } else if rules.last().0 == table {
        Some(rules.last().1)
    } else {
        last_rule(rules.drop_last(), table)
    }
}

/// The rule registered last for `table`, if any.
pub fn rule_for<'a>(rules: &'a Vec<(String, Rule)>, table: &String) -> (r: Option<&'a Rule>)
    ensures
        match last_rule(rules_view(rules@), table@) {
            Some(m) => r is Some && r->0@ == m,
            None => r is None,
        },
{
    let ghost rv = rules_view(rules@);
    let mut i: usize = rules.len();
    assert(rv.take(i as int) =~= rv);
    while i > 0
        invariant
            i <= rules@.len(),
            rv == rules_view(rules@),
            last_rule(rv, table@) == last_rule(rv.take(i as int), table@),
        decreases i,
    {
        assert(rv.take(i as int).drop_last() =~= rv.take(i - 1));
        assert(rv.take(i as int).last() == (rules@[i - 1].0@, rules@[i - 1].1@));
        if rules[i - 1].0 == *table {
            return Some(&rules[i - 1].1);
        }
        i = i - 1;
    }
    None
}

} // verus!
