//! The spatial analyzer rule: it binds every spatial call of a plan to the
//! geometry type and the encoding of the column it reads, by appending both
//! as constant arguments.

use vstd::prelude::*;
use crate::error::{Error, ErrorKind};
use crate::metadata::{geo_columns, parse_geo_metadata, same_text, type_tag, GeoMetadata};
use crate::plan::{exprs_model, plans_model, Expr, ExprView, LogicalPlan, PlanView};

verus! {

/// The metadata of one table, as analysis keeps it.
#[derive(Clone, Debug, PartialEq)]
pub struct TableMetadata {
    pub table: String,
    pub metadata: GeoMetadata,
}

/// What analysis knows of the tables seen so far: the table names with their
/// columns, in the order in which the tables were met.
pub type CatalogView = Seq<(Seq<char>, Map<Seq<char>, (Seq<char>, Set<Seq<char>>)>)>;

/// The value of a list of table metadata.
pub open spec fn catalog_view(tables: Vec<TableMetadata>) -> CatalogView {
    Seq::new(tables.len() as nat, |i: int| (tables[i].table@, tables[i].metadata.view_map()))
}

/// Validity of a list of table metadata: each entry is well formed.
pub open spec fn catalog_wf(tables: Vec<TableMetadata>) -> bool {
    forall|i: int| 0 <= i < tables.len() ==> (#[trigger] tables[i]).metadata.wf()
}

/// The columns of the first entry for `table`, if there is one.
pub open spec fn catalog_find(catalog: CatalogView, table: Seq<char>) -> Option<
    Map<Seq<char>, (Seq<char>, Set<Seq<char>>)>,
>
    decreases catalog.len(),
{
    if catalog.len() == 0 {
        None
    } else if catalog[0].0 == table {
        Some(catalog[0].1)
    } else {
        catalog_find(catalog.subrange(1, catalog.len() as int), table)
    }
}

/// Whether a function name is that of a spatial function: it begins with `ST_`.
pub open spec fn is_spatial_name(name: Seq<char>) -> bool {
    name.len() >= 3 && name[0] == 'S' && name[1] == 'T' && name[2] == '_'
}

/// What one argument of a spatial call says of the call's geometry: the
/// (geometry type, encoding) of a known geometry column, that of the result
/// of a spatial scalar call, a failure for a spatial scalar call whose result
/// is not known, or nothing.
pub open spec fn child_tags(child: ExprView, catalog: CatalogView) -> Option<
    Result<(Seq<char>, Seq<char>), ErrorKind>,
> {
    match child {
        ExprView::Column { relation: Some(table), name } => match catalog_find(catalog, table) {
            Some(columns) => if columns.contains_key(name) {
                Some(Ok((type_tag(columns[name].1), columns[name].0)))
            } else {
                None
            },
            None => None,
        },
        ExprView::ScalarFunction { name, args, schema_name } => if is_spatial_name(name) {
            if name == "ST_Envelope"@ {
                Some(Ok(("Polygon"@, "polygon"@)))
            } else {
                Some(Err(ErrorKind::NotImplemented))
            }
        } else {
            None
        },
        _ => None,
    }
}

/// The (geometry type, encoding) of a spatial call with the arguments
/// `children`: what the first argument that says anything says. A call none
/// of whose arguments says anything is a metadata error.
pub open spec fn infer_tags(children: Seq<ExprView>, catalog: CatalogView) -> Result<
    (Seq<char>, Seq<char>),
    ErrorKind,
>
    decreases children.len(),
{
    if children.len() == 0 {
        Err(ErrorKind::ParquetMetadata)
    } else {
        match child_tags(children[0], catalog) {
            Some(r) => r,
            None => infer_tags(children.subrange(1, children.len() as int), catalog),
        }
    }
}

/// The arguments of a rewritten spatial call: the rewritten arguments, then
/// the geometry type and the encoding as constants.
pub open spec fn with_tags(args: Seq<ExprView>, tags: (Seq<char>, Seq<char>)) -> Seq<ExprView> {
    args.push(ExprView::Literal { value: tags.0 }).push(ExprView::Literal { value: tags.1 })
}

/// The rewritten expression: every spatial call in it, innermost first, gets
/// its two constants and keeps its output name as an alias.
pub open spec fn rewrite_expr(expr: ExprView, catalog: CatalogView) -> Result<ExprView, ErrorKind>
    decreases expr,
{
    match expr {
        ExprView::Column { .. } => Ok(expr),
        ExprView::Literal { .. } => Ok(expr),
        ExprView::ScalarFunction { name, args, schema_name } => match rewrite_exprs(args, catalog) {
            Err(e) => Err(e),
            Ok(done) => if is_spatial_name(name) {
                match infer_tags(args, catalog) {
                    Err(e) => Err(e),
                    Ok(tags) => Ok(
                        ExprView::Alias {
                            expr: Box::new(
                                ExprView::ScalarFunction {
                                    name,
                                    args: with_tags(done, tags),
                                    schema_name,
                                },
                            ),
                            name: schema_name,
                        },
                    ),
                }
            } else {
                Ok(ExprView::ScalarFunction { name, args: done, schema_name })
            },
        },
        ExprView::AggregateFunction { name, args, schema_name } => match rewrite_exprs(
            args,
            catalog,
        ) {
            Err(e) => Err(e),
            Ok(done) => if is_spatial_name(name) {
                match infer_tags(args, catalog) {
                    Err(e) => Err(e),
                    Ok(tags) => Ok(
                        ExprView::Alias {
                            expr: Box::new(
                                ExprView::AggregateFunction {
                                    name,
                                    args: with_tags(done, tags),
                                    schema_name,
                                },
                            ),
                            name: schema_name,
                        },
                    ),
                }
            } else {
                Ok(ExprView::AggregateFunction { name, args: done, schema_name })
            },
        },
        ExprView::Alias { expr: inner, name } => match rewrite_expr(*inner, catalog) {
            Err(e) => Err(e),
            Ok(done) => Ok(ExprView::Alias { expr: Box::new(done), name }),
        },
        ExprView::Other { id, children } => match rewrite_exprs(children, catalog) {
            Err(e) => Err(e),
            Ok(done) => Ok(ExprView::Other { id, children: done }),
        },
    }
}

/// The expressions rewritten one by one, in order; the first failure ends it.
pub open spec fn rewrite_exprs(exprs: Seq<ExprView>, catalog: CatalogView) -> Result<
    Seq<ExprView>,
    ErrorKind,
>
    decreases exprs,
{
    if exprs.len() == 0 {
        Ok(Seq::empty())
    } else {
        match rewrite_exprs(exprs.drop_last(), catalog) {
            Err(e) => Err(e),
            Ok(done) => match rewrite_expr(exprs.last(), catalog) {
                Err(e) => Err(e),
                Ok(e) => Ok(done.push(e)),
            },
        }
    }
}

/// Analysis of a plan that starts out knowing `catalog`: the rewritten plan
/// and what is known afterwards. Inputs come before the node that reads them,
/// left to right. A scan of a table that has a `geo` entry and is not known
/// yet adds the table; any other node has its expressions rewritten with what
/// is known by then.
pub open spec fn analyze_plan(plan: PlanView, catalog: CatalogView) -> Result<
    (PlanView, CatalogView),
    ErrorKind,
>
    decreases plan,
{
    match plan {
        PlanView::TableScan { table_name, geo } => match geo {
            None => Ok((plan, catalog)),
            Some(json) => if catalog_find(catalog, table_name) is Some {
                Ok((plan, catalog))
            } else {
                match geo_columns(json) {
                    None => Err(ErrorKind::ParquetMetadata),
                    Some(columns) => Ok((plan, catalog.push((table_name, columns)))),
                }
            },
        },
        PlanView::Other { id, exprs, inputs } => match analyze_plans(inputs, catalog) {
            Err(e) => Err(e),
            Ok((done, known)) => match rewrite_exprs(exprs, known) {
                Err(e) => Err(e),
                Ok(rewritten) => Ok((PlanView::Other { id, exprs: rewritten, inputs: done }, known)),
            },
        },
    }
}

/// Analysis of a list of plans, left to right, each starting with what the
/// ones before it made known.
pub open spec fn analyze_plans(plans: Seq<PlanView>, catalog: CatalogView) -> Result<
    (Seq<PlanView>, CatalogView),
    ErrorKind,
>
    decreases plans,
{
    if plans.len() == 0 {
        Ok((Seq::empty(), catalog))
    } else {
        match analyze_plans(plans.drop_last(), catalog) {
            Err(e) => Err(e),
            Ok((done, known)) => match analyze_plan(plans.last(), known) {
                Err(e) => Err(e),
                Ok((plan, after)) => Ok((done.push(plan), after)),
            },
        }
    }
}

/// The expressions directly under an expression: the arguments of a call,
/// what an alias names, the children of any other expression.
pub open spec fn children_of(expr: ExprView) -> Seq<ExprView> {
    match expr {
        ExprView::Column { .. } => Seq::empty(),
        ExprView::Literal { .. } => Seq::empty(),
        ExprView::ScalarFunction { args, .. } => args,
        ExprView::AggregateFunction { args, .. } => args,
        ExprView::Alias { expr: inner, .. } => seq![*inner],
        ExprView::Other { children, .. } => children,
    }
}

/// Whether `tables` meets [`catalog_wf`].
pub fn check_catalog(tables: &Vec<TableMetadata>) -> (r: bool)
    ensures
        r == catalog_wf(*tables),
{
    let mut i: usize = 0;
    while i < tables.len()
        invariant
            i <= tables.len(),
            forall|j: int| 0 <= j < i ==> (#[trigger] tables[j]).metadata.wf(),
        decreases tables.len() - i,
    {
        if !tables[i].metadata.is_valid() {
            return false;
        }
        i += 1;
    }
    true
}

/// Whether `name` begins with `ST_`.
pub fn is_spatial(name: &str) -> (r: bool)
    ensures
        r == is_spatial_name(name@),
{
    name.unicode_len() >= 3 && name.get_char(0) == 'S' && name.get_char(1) == 'T' && name.get_char(
        2,
    ) == '_'
}

/// The place of the first entry for `table`, if there is one.
pub fn find_table(tables: &Vec<TableMetadata>, table: &str) -> (r: Option<usize>)
    ensures
        match r {
            Some(i) => i < tables.len() && tables[i as int].table@ == table@ && catalog_find(
                catalog_view(*tables),
                table@,
            ) == Some(tables[i as int].metadata.view_map()),
            None => catalog_find(catalog_view(*tables), table@) is None,
        },
{
    let ghost catalog = catalog_view(*tables);
    assert(catalog.subrange(0, catalog.len() as int) =~= catalog);
    let mut i: usize = 0;
    while i < tables.len()
        invariant
            i <= tables.len(),
            catalog == catalog_view(*tables),
            catalog_find(catalog, table@) == catalog_find(
                catalog.subrange(i as int, catalog.len() as int),
                table@,
            ),
        decreases tables.len() - i,
    {
        let ghost rest = catalog.subrange(i as int, catalog.len() as int);
        assert(rest[0] == catalog[i as int]);
        if same_text(tables[i].table.as_str(), table) {
            return Some(i);
        }
        assert(rest.subrange(1, rest.len() as int) =~= catalog.subrange(
            i as int + 1,
            catalog.len() as int,
        ));
        i += 1;
    }
    None
}

/// A constant text as an expression.
pub fn lit(value: &str) -> (e: Expr)
    ensures
        e@ == (ExprView::Literal { value: value@ }),
{
    Expr::Literal { value: String::from_str(value) }
}

/// What one argument of a spatial call says of the call's geometry.
fn tags_of_child(child: &Expr, geometa: &Vec<TableMetadata>) -> (r: Option<
    Result<(String, String), Error>,
>)
    requires
        catalog_wf(*geometa),
    ensures
        match r {
            None => child_tags(child@, catalog_view(*geometa)) is None,
            Some(Ok(tags)) => child_tags(child@, catalog_view(*geometa)) == Some(
                Ok::<(Seq<char>, Seq<char>), ErrorKind>((tags.0@, tags.1@)),
            ),
            Some(Err(e)) => child_tags(child@, catalog_view(*geometa)) == Some(
                Err::<(Seq<char>, Seq<char>), ErrorKind>(e.kind()),
            ),
        },
{
    match child {
        Expr::Column { relation: Some(table), name } => {
            match find_table(geometa, table.as_str()) {
                Some(t) => {
                    let meta = &geometa[t].metadata;
                    match meta.position(name.as_str()) {
                        Some(c) => {
                            let column = &meta.columns[c];
                            assert(column.wf());
                            Some(Ok((column.type_tag(), column.encoding.clone())))
                        },
                        None => None,
                    }
                },
                None => None,
            }
        },
        Expr::ScalarFunction { name, args, schema_name } => {
            if is_spatial(name.as_str()) {
                if same_text(name.as_str(), "ST_Envelope") {
                    Some(Ok((String::from_str("Polygon"), String::from_str("polygon"))))
                } else {
                    let mut message = String::from_str("io mapping for ");
                    message.append(name.as_str());
                    Some(Err(Error::NotImplemented(message)))
                }
            } else {
                None
            }
        },
        _ => None,
    }
}

/// The geometry type and the encoding that a spatial call is to be given, as
/// two constants, in that order.
///
/// They are those of the first argument that is a column of a known table
/// with a `geo` entry for it, or a spatial scalar call. Of such calls only
/// `ST_Envelope` is known, which yields polygons; another one is reported as
/// not implemented. Where no argument is either, the call reads no geometry
/// that the metadata knows: a metadata error.
pub fn infer_encoding_and_type(expr: &Expr, geometa: &Vec<TableMetadata>) -> (r: Result<
    (Expr, Expr),
    Error,
>)
    requires
        catalog_wf(*geometa),
    ensures
        match r {
            Ok(out) => match infer_tags(children_of(expr@), catalog_view(*geometa)) {
                Ok(tags) => out.0@ == (ExprView::Literal { value: tags.0 }) && out.1@ == (
                    ExprView::Literal { value: tags.1 }
                ),
                Err(_) => false,
            },
            Err(e) => infer_tags(children_of(expr@), catalog_view(*geometa)) == Err::<
                (Seq<char>, Seq<char>),
                ErrorKind,
            >(e.kind()),
        },
{
    match expr {
        Expr::ScalarFunction { name, args, schema_name } => infer_from(args, geometa),
        Expr::AggregateFunction { name, args, schema_name } => infer_from(args, geometa),
        Expr::Other { id, children } => infer_from(children, geometa),
        Expr::Alias { expr: inner, name } => {
            let ghost children = children_of(expr@);
            assert(children.len() == 1 && children[0] == inner@);
            assert(children.subrange(1, 1).len() == 0);
            assert(infer_tags(children.subrange(1, 1), catalog_view(*geometa)) == Err::<
                (Seq<char>, Seq<char>),
                ErrorKind,
            >(ErrorKind::ParquetMetadata));
            match tags_of_child(inner, geometa) {
                Some(Ok(tags)) => Ok(
                    (Expr::Literal { value: tags.0 }, Expr::Literal { value: tags.1 }),
                ),
                Some(Err(e)) => Err(e),
                None => Err(missing_metadata()),
            }
        },
        _ => Err(missing_metadata()),
    }
}

/// The failure of a spatial call that reads no geometry the metadata knows:
/// a metadata error that says so.
fn missing_metadata() -> (e: Error)
    ensures
        e.kind() == ErrorKind::ParquetMetadata,
        e.message() == "Missing `geo` metadata for the argument of a spatial call"@,
{
    Error::ParquetMetadata(String::from_str("Missing `geo` metadata for the argument of a spatial call"))
}

fn infer_from(children: &Vec<Expr>, geometa: &Vec<TableMetadata>) -> (r: Result<(Expr, Expr), Error>)
    requires
        catalog_wf(*geometa),
    ensures
        match r {
            Ok(out) => match infer_tags(exprs_model(*children), catalog_view(*geometa)) {
                Ok(tags) => out.0@ == (ExprView::Literal { value: tags.0 }) && out.1@ == (
                    ExprView::Literal { value: tags.1 }
                ),
                Err(_) => false,
            },
            Err(e) => infer_tags(exprs_model(*children), catalog_view(*geometa)) == Err::<
                (Seq<char>, Seq<char>),
                ErrorKind,
            >(e.kind()),
        },
{
    let ghost all = exprs_model(*children);
    let ghost catalog = catalog_view(*geometa);
    assert(all.subrange(0, all.len() as int) =~= all);
    let mut i: usize = 0;
    while i < children.len()
        invariant
            i <= children.len(),
            catalog_wf(*geometa),
            all == exprs_model(*children),
            catalog == catalog_view(*geometa),
            infer_tags(all, catalog) == infer_tags(all.subrange(i as int, all.len() as int), catalog),
        decreases children.len() - i,
    {
        let ghost rest = all.subrange(i as int, all.len() as int);
        assert(rest[0] == children[i as int]@);
        assert(rest.subrange(1, rest.len() as int) =~= all.subrange(i as int + 1, all.len() as int));
        match tags_of_child(&children[i], geometa) {
            Some(Ok(tags)) => {
                return Ok((Expr::Literal { value: tags.0 }, Expr::Literal { value: tags.1 }));
            },
            Some(Err(e)) => {
                return Err(e);
            },
            None => {},
        }
        i += 1;
    }
    Err(missing_metadata())
}

/// A failure among the first `n` expressions is the failure of them all.
proof fn lemma_rewrite_exprs_failure(exprs: Seq<ExprView>, n: int, catalog: CatalogView)
    requires
        0 <= n <= exprs.len(),
        rewrite_exprs(exprs.subrange(0, n), catalog) is Err,
    ensures
        rewrite_exprs(exprs, catalog) == rewrite_exprs(exprs.subrange(0, n), catalog),
    decreases exprs.len() - n,
{
    if n == exprs.len() {
        assert(exprs.subrange(0, n) =~= exprs);
    } else {
        assert(exprs.drop_last().subrange(0, n) =~= exprs.subrange(0, n));
        lemma_rewrite_exprs_failure(exprs.drop_last(), n, catalog);
    }
}

/// Rewrites one expression: every spatial call in it gets the geometry type
/// and the encoding of what it reads as two further constant arguments, and
/// is given its former output name as an alias. Inner calls come first. The
/// first call whose geometry cannot be told ends the rewrite with its error.
pub fn rewrite_expression(expr: &Expr, geometa: &Vec<TableMetadata>) -> (r: Result<Expr, Error>)
    requires
        catalog_wf(*geometa),
    ensures
        match r {
            Ok(e) => rewrite_expr(expr@, catalog_view(*geometa)) == Ok::<ExprView, ErrorKind>(e@),
            Err(e) => rewrite_expr(expr@, catalog_view(*geometa)) == Err::<ExprView, ErrorKind>(
                e.kind(),
            ),
        },
    decreases expr,
{
    match expr {
        Expr::Column { relation, name } => {
            let relation = match relation {
                Some(table) => Some(table.clone()),
                None => None,
            };
            Ok(Expr::Column { relation, name: name.clone() })
        },
        Expr::Literal { value } => Ok(Expr::Literal { value: value.clone() }),
        Expr::ScalarFunction { name, args, schema_name } => {
            let mut done = match rewrite_expressions(args, geometa) {
                Ok(done) => done,
                Err(e) => {
                    return Err(e);
                },
            };
            if is_spatial(name.as_str()) {
                let (geometry_type, encoding) = match infer_encoding_and_type(expr, geometa) {
                    Ok(tags) => tags,
                    Err(e) => {
                        return Err(e);
                    },
                };
                let ghost before = exprs_model(done);
                done.push(geometry_type);
                done.push(encoding);
                assert(exprs_model(done) =~= before.push(geometry_type@).push(encoding@));
                let call = Expr::ScalarFunction {
                    name: name.clone(),
                    args: done,
                    schema_name: schema_name.clone(),
                };
                assert(call@ == (ExprView::ScalarFunction {
                    name: name@,
                    args: exprs_model(done),
                    schema_name: schema_name@,
                }));
                Ok(Expr::Alias { expr: Box::new(call), name: schema_name.clone() })
            } else {
                Ok(
                    Expr::ScalarFunction {
                        name: name.clone(),
                        args: done,
                        schema_name: schema_name.clone(),
                    },
                )
            }
        },
        Expr::AggregateFunction { name, args, schema_name } => {
            let mut done = match rewrite_expressions(args, geometa) {
                Ok(done) => done,
                Err(e) => {
                    return Err(e);
                },
            };
            if is_spatial(name.as_str()) {
                let (geometry_type, encoding) = match infer_encoding_and_type(expr, geometa) {
                    Ok(tags) => tags,
                    Err(e) => {
                        return Err(e);
                    },
                };
                let ghost before = exprs_model(done);
                done.push(geometry_type);
                done.push(encoding);
                assert(exprs_model(done) =~= before.push(geometry_type@).push(encoding@));
                let call = Expr::AggregateFunction {
                    name: name.clone(),
                    args: done,
                    schema_name: schema_name.clone(),
                };
                assert(call@ == (ExprView::AggregateFunction {
                    name: name@,
                    args: exprs_model(done),
                    schema_name: schema_name@,
                }));
                Ok(Expr::Alias { expr: Box::new(call), name: schema_name.clone() })
            } else {
                Ok(
                    Expr::AggregateFunction {
                        name: name.clone(),
                        args: done,
                        schema_name: schema_name.clone(),
                    },
                )
            }
        },
        Expr::Alias { expr: inner, name } => match rewrite_expression(inner, geometa) {
            Ok(done) => Ok(Expr::Alias { expr: Box::new(done), name: name.clone() }),
            Err(e) => Err(e),
        },
        Expr::Other { id, children } => match rewrite_expressions(children, geometa) {
            Ok(done) => Ok(Expr::Other { id: *id, children: done }),
            Err(e) => Err(e),
        },
    }
}

/// Rewrites a list of expressions, in order.
pub fn rewrite_expressions(exprs: &Vec<Expr>, geometa: &Vec<TableMetadata>) -> (r: Result<
    Vec<Expr>,
    Error,
>)
    requires
        catalog_wf(*geometa),
    ensures
        match r {
            Ok(done) => rewrite_exprs(exprs_model(*exprs), catalog_view(*geometa)) == Ok::<
                Seq<ExprView>,
                ErrorKind,
            >(exprs_model(done)),
            Err(e) => rewrite_exprs(exprs_model(*exprs), catalog_view(*geometa)) == Err::<
                Seq<ExprView>,
                ErrorKind,
            >(e.kind()),
        },
    decreases exprs,
{
    let ghost all = exprs_model(*exprs);
    let ghost catalog = catalog_view(*geometa);
    let mut done: Vec<Expr> = Vec::new();
    let mut i: usize = 0;
    assert(all.subrange(0, 0) =~= Seq::<ExprView>::empty());
    assert(exprs_model(done) =~= Seq::<ExprView>::empty());
    while i < exprs.len()
        invariant
            i <= exprs.len(),
            catalog_wf(*geometa),
            all == exprs_model(*exprs),
            catalog == catalog_view(*geometa),
            rewrite_exprs(all.subrange(0, i as int), catalog) == Ok::<Seq<ExprView>, ErrorKind>(
                exprs_model(done),
            ),
        decreases exprs.len() - i,
    {
        let ghost next = all.subrange(0, i as int + 1);
        assert(next.drop_last() =~= all.subrange(0, i as int));
        assert(next.last() == exprs[i as int]@);
        match rewrite_expression(&exprs[i], geometa) {
            Ok(e) => {
                let ghost before = exprs_model(done);
                done.push(e);
                assert(exprs_model(done) =~= before.push(e@));
            },
            Err(e) => {
                proof {
                    lemma_rewrite_exprs_failure(all, i as int + 1, catalog);
                }
                return Err(e);
            },
        }
        i += 1;
    }
    assert(all.subrange(0, i as int) =~= all);
    Ok(done)
}

/// A failure among the first `n` plans is the failure of them all.
proof fn lemma_analyze_plans_failure(plans: Seq<PlanView>, n: int, catalog: CatalogView)
    requires
        0 <= n <= plans.len(),
        analyze_plans(plans.subrange(0, n), catalog) is Err,
    ensures
        analyze_plans(plans, catalog) == analyze_plans(plans.subrange(0, n), catalog),
    decreases plans.len() - n,
{
    if n == plans.len() {
        assert(plans.subrange(0, n) =~= plans);
    } else {
        assert(plans.drop_last().subrange(0, n) =~= plans.subrange(0, n));
        lemma_analyze_plans_failure(plans.drop_last(), n, catalog);
    }
}

fn clone_text(text: &Option<String>) -> (r: Option<String>)
    ensures
        crate::plan::opt_text(r) == crate::plan::opt_text(*text),
{
    match text {
        Some(t) => Some(t.clone()),
        None => None,
    }
}

/// Analyses a plan, starting with the table metadata in `geometa` and
/// adding to it the metadata of the tables that the plan scans.
///
/// The inputs of a node are analysed before the node, left to right. A scan
/// of a table that has a `geo` entry and is not in `geometa` yet has the
/// entry decoded and added; a malformed entry ends the analysis. Every other
/// node has its expressions rewritten with what `geometa` holds by then.
pub fn analyze_with(plan: &LogicalPlan, geometa: &mut Vec<TableMetadata>) -> (r: Result<
    LogicalPlan,
    Error,
>)
    requires
        catalog_wf(*old(geometa)),
    ensures
        catalog_wf(*final(geometa)),
        match r {
            Ok(done) => analyze_plan(plan@, catalog_view(*old(geometa))) == Ok::<
                (PlanView, CatalogView),
                ErrorKind,
            >((done@, catalog_view(*final(geometa)))),
            Err(e) => analyze_plan(plan@, catalog_view(*old(geometa))) == Err::<
                (PlanView, CatalogView),
                ErrorKind,
            >(e.kind()),
        },
    decreases plan,
{
    match plan {
        LogicalPlan::TableScan { table_name, geo } => {
            if let Some(json) = geo {
                if find_table(geometa, table_name.as_str()).is_none() {
                    let metadata = match parse_geo_metadata(json.as_str()) {
                        Ok(metadata) => metadata,
                        Err(e) => {
                            return Err(e);
                        },
                    };
                    let ghost before = catalog_view(*geometa);
                    geometa.push(TableMetadata { table: table_name.clone(), metadata });
                    assert(catalog_view(*geometa) =~= before.push(
                        (table_name@, metadata.view_map()),
                    ));
                }
            }
            Ok(LogicalPlan::TableScan { table_name: table_name.clone(), geo: clone_text(geo) })
        },
        LogicalPlan::Other { id, exprs, inputs } => {
            let ghost all = plans_model(*inputs);
            let ghost start = catalog_view(*geometa);
            let mut done: Vec<LogicalPlan> = Vec::new();
            let mut i: usize = 0;
            assert(all.subrange(0, 0) =~= Seq::<PlanView>::empty());
            assert(plans_model(done) =~= Seq::<PlanView>::empty());
            while i < inputs.len()
                invariant
                    i <= inputs.len(),
                    decreases_to!(plan => inputs),
                    plan@ == (PlanView::Other { id: *id, exprs: exprs_model(*exprs), inputs: all }),
                    start == catalog_view(*old(geometa)),
                    catalog_wf(*geometa),
                    all == plans_model(*inputs),
                    analyze_plans(all.subrange(0, i as int), start) == Ok::<
                        (Seq<PlanView>, CatalogView),
                        ErrorKind,
                    >((plans_model(done), catalog_view(*geometa))),
                decreases inputs.len() - i,
            {
                let ghost next = all.subrange(0, i as int + 1);
                assert(next.drop_last() =~= all.subrange(0, i as int));
                assert(next.last() == inputs[i as int]@);
                match analyze_with(&inputs[i], geometa) {
                    Ok(input) => {
                        let ghost before = plans_model(done);
                        done.push(input);
                        assert(plans_model(done) =~= before.push(input@));
                    },
                    Err(e) => {
                        proof {
                            lemma_analyze_plans_failure(all, i as int + 1, start);
                        }
                        return Err(e);
                    },
                }
                i += 1;
            }
            assert(all.subrange(0, i as int) =~= all);
            match rewrite_expressions(exprs, geometa) {
                Ok(rewritten) => Ok(LogicalPlan::Other { id: *id, exprs: rewritten, inputs: done }),
                Err(e) => Err(e),
            }
        },
    }
}

/// The rule that gives every spatial call of a plan the geometry type and the
/// encoding of the column it reads.
pub struct SpatialAnalyzerRule {}

impl SpatialAnalyzerRule {
    /// Rewrites `plan` so that every spatial call outside its table scans
    /// carries, after its own arguments, the geometry type and the encoding of
    /// what it reads, as constants. The metadata comes from the `geo` entries
    /// of the plan's table scans, each table decoded once.
    pub fn analyze(&self, plan: LogicalPlan) -> (r: Result<LogicalPlan, Error>)
        ensures
            match r {
                Ok(done) => match analyze_plan(plan@, Seq::empty()) {
                    Ok(pair) => pair.0 == done@,
                    Err(_) => false,
                },
                Err(e) => analyze_plan(plan@, Seq::empty()) == Err::<
                    (PlanView, CatalogView),
                    ErrorKind,
                >(e.kind()),
            },
    {
        let mut geometa: Vec<TableMetadata> = Vec::new();
        assert(catalog_view(geometa) =~= Seq::empty());
        analyze_with(&plan, &mut geometa)
    }

    /// The name of the rule.
    pub fn name(&self) -> (name: &'static str)
        ensures
            name@ == "spatial-analyzer-rule"@,
    {
        "spatial-analyzer-rule"
    }
}

/// Whether an expression holds a call of a spatial function.
pub open spec fn has_spatial_call(expr: ExprView) -> bool
    decreases expr,
{
    match expr {
        ExprView::Column { .. } => false,
        ExprView::Literal { .. } => false,
        ExprView::ScalarFunction { name, args, .. } => is_spatial_name(name) || any_spatial_call(
            args,
        ),
        ExprView::AggregateFunction { name, args, .. } => is_spatial_name(name) || any_spatial_call(
            args,
        ),
        ExprView::Alias { expr: inner, .. } => has_spatial_call(*inner),
        ExprView::Other { children, .. } => any_spatial_call(children),
    }
}

/// Whether one of the expressions holds a call of a spatial function.
pub open spec fn any_spatial_call(exprs: Seq<ExprView>) -> bool
    decreases exprs,
{
    if exprs.len() == 0 {
        false
    } else {
        any_spatial_call(exprs.drop_last()) || has_spatial_call(exprs.last())
    }
}

/// Whether a plan holds a call of a spatial function outside its table
/// scans.
pub open spec fn plan_has_spatial_call(plan: PlanView) -> bool
    decreases plan,
{
    match plan {
        PlanView::TableScan { .. } => false,
        PlanView::Other { exprs, inputs, .. } => any_spatial_call(exprs) || any_plan_has_spatial_call(
            inputs,
        ),
    }
}

/// Whether one of the plans holds a call of a spatial function outside its
/// table scans.
pub open spec fn any_plan_has_spatial_call(plans: Seq<PlanView>) -> bool
    decreases plans,
{
    if plans.len() == 0 {
        false
    } else {
        any_plan_has_spatial_call(plans.drop_last()) || plan_has_spatial_call(plans.last())
    }
}

/// An expression without spatial calls is rewritten to itself.
pub proof fn lemma_rewrite_without_spatial_call(expr: ExprView, catalog: CatalogView)
    requires
        !has_spatial_call(expr),
    ensures
        rewrite_expr(expr, catalog) == Ok::<ExprView, ErrorKind>(expr),
    decreases expr,
{
    match expr {
        ExprView::Column { .. } => {},
        ExprView::Literal { .. } => {},
        ExprView::ScalarFunction { name, args, schema_name } => {
            lemma_rewrite_all_without_spatial_call(args, catalog);
        },
        ExprView::AggregateFunction { name, args, schema_name } => {
            lemma_rewrite_all_without_spatial_call(args, catalog);
        },
        ExprView::Alias { expr: inner, name } => {
            lemma_rewrite_without_spatial_call(*inner, catalog);
        },
        ExprView::Other { id, children } => {
            lemma_rewrite_all_without_spatial_call(children, catalog);
        },
    }
}

/// Expressions without spatial calls are rewritten to themselves.
pub proof fn lemma_rewrite_all_without_spatial_call(exprs: Seq<ExprView>, catalog: CatalogView)
    requires
        !any_spatial_call(exprs),
    ensures
        rewrite_exprs(exprs, catalog) == Ok::<Seq<ExprView>, ErrorKind>(exprs),
    decreases exprs,
{
    if exprs.len() > 0 {
        lemma_rewrite_all_without_spatial_call(exprs.drop_last(), catalog);
        lemma_rewrite_without_spatial_call(exprs.last(), catalog);
        assert(exprs.drop_last().push(exprs.last()) =~= exprs);
    } else {
        assert(exprs =~= Seq::<ExprView>::empty());
    }
}

/// Analysis leaves a plan without spatial calls as it is: where it succeeds,
/// the plan that it returns is the plan that it was given. So a plan that
/// holds no spatial call outside its table scans is a fixed point: another
/// pass changes no call and appends no constant.
pub proof fn lemma_analysis_without_spatial_call(plan: PlanView, catalog: CatalogView)
    requires
        !plan_has_spatial_call(plan),
        analyze_plan(plan, catalog) is Ok,
    ensures
        analyze_plan(plan, catalog)->Ok_0.0 == plan,
    decreases plan,
{
    match plan {
        PlanView::TableScan { .. } => {},
        PlanView::Other { id, exprs, inputs } => {
            lemma_analysis_of_all_without_spatial_call(inputs, catalog);
            let known = analyze_plans(inputs, catalog)->Ok_0.1;
            lemma_rewrite_all_without_spatial_call(exprs, known);
        },
    }
}

/// Analysis leaves plans without spatial calls as they are.
pub proof fn lemma_analysis_of_all_without_spatial_call(plans: Seq<PlanView>, catalog: CatalogView)
    requires
        !any_plan_has_spatial_call(plans),
        analyze_plans(plans, catalog) is Ok,
    ensures
        analyze_plans(plans, catalog)->Ok_0.0 == plans,
    decreases plans,
{
    if plans.len() > 0 {
        lemma_analysis_of_all_without_spatial_call(plans.drop_last(), catalog);
        let known = analyze_plans(plans.drop_last(), catalog)->Ok_0.1;
        lemma_analysis_without_spatial_call(plans.last(), known);
        assert(plans.drop_last().push(plans.last()) =~= plans);
    } else {
        assert(plans =~= Seq::<PlanView>::empty());
    }
}

/// The constants that analysis appends are left alone by another pass: a
/// constant is rewritten to itself.
pub proof fn lemma_constants_are_kept(value: Seq<char>, catalog: CatalogView)
    ensures
        rewrite_expr(ExprView::Literal { value }, catalog) == Ok::<ExprView, ErrorKind>(
            ExprView::Literal { value },
        ),
{
}

/// A spatial call that is rewritten gets exactly two more arguments, both
/// constants, behind its own arguments, and keeps its output name.
pub proof fn lemma_rewritten_call(
    name: Seq<char>,
    args: Seq<ExprView>,
    schema_name: Seq<char>,
    catalog: CatalogView,
)
    requires
        is_spatial_name(name),
        rewrite_expr(ExprView::ScalarFunction { name, args, schema_name }, catalog) is Ok,
    ensures
        match rewrite_expr(ExprView::ScalarFunction { name, args, schema_name }, catalog)->Ok_0 {
            ExprView::Alias { expr: inner, name: alias } => alias == schema_name && match *inner {
                ExprView::ScalarFunction { name: called, args: given, schema_name: listed } => {
                    &&& called == name
                    &&& listed == schema_name
                    &&& given.len() == args.len() + 2
                    &&& given[args.len() as int] is Literal
                    &&& given[args.len() as int + 1] is Literal
                    &&& rewrite_exprs(args, catalog) == Ok::<Seq<ExprView>, ErrorKind>(
                        given.subrange(0, args.len() as int),
                    )
                },
                _ => false,
            },
            _ => false,
        },
{
    let done = rewrite_exprs(args, catalog)->Ok_0;
    lemma_rewrite_keeps_length(args, catalog);
    let tags = infer_tags(args, catalog)->Ok_0;
    assert(with_tags(done, tags).subrange(0, args.len() as int) =~= done);
}

/// Rewriting a list of expressions gives as many expressions.
pub proof fn lemma_rewrite_keeps_length(exprs: Seq<ExprView>, catalog: CatalogView)
    requires
        rewrite_exprs(exprs, catalog) is Ok,
    ensures
        rewrite_exprs(exprs, catalog)->Ok_0.len() == exprs.len(),
    decreases exprs,
{
    if exprs.len() > 0 {
        lemma_rewrite_keeps_length(exprs.drop_last(), catalog);
    }
}

} // verus!
