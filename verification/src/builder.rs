//! The SQL fragment compiler.
//!
//! Three compilation modes consume a full condition sequence and produce a
//! compiled `Query`: the INSERT shape (a comma-joined field list and a
//! comma-joined placeholder list), the UPDATE shape (a comma-joined list
//! of `field=placeholder` pairs for a SET clause) and the SELECT shape (a
//! space-joined predicate text for a WHERE or ON clause). Placeholders are
//! rendered as the dialect prefix followed by a 1-based index in emission
//! order, and every placeholder is matched by one bind argument, in the
//! same order.

use vstd::prelude::*;

use crate::condition::{spec_compare_symbol, spec_logical_keyword, CompareOp, Kwargs, LogicalOp};
use crate::dialect::{spec_placeholder_prefix, Dialect};
use crate::strutil::{
    all_digits, char_count, dec_nat, format_u64, is_digit, join_strings, lemma_char_count_join,
    lemma_dec_nat_digits, seq_join, views_of,
};
use crate::value::{Arg, TypeTag};

verus! {

/// A compiled query fragment. It is constructed once per compile call and
/// consumed once by the execution layer: `placeholders` holds the rendered
/// text (the placeholder list for INSERT, the SET list for UPDATE, the
/// predicate text for SELECT), `fields` holds the comma-joined field names
/// of an INSERT and is empty otherwise, and `args` holds the bind
/// arguments in emission order.
pub struct Query {
    pub placeholders: String,
    pub fields: String,
    pub args: Vec<Arg>,
}

/// A field condition that consumes a placeholder and emits one argument —
/// that is, one that is not a column reference.
pub open spec fn is_bindable(k: Kwargs) -> bool {
    k matches Kwargs::Condition { value_type, .. } && value_type != TypeTag::Column
}

/// A column-reference condition: rendered verbatim, never bound.
pub open spec fn is_column_condition(k: Kwargs) -> bool {
    k matches Kwargs::Condition { value_type, .. } && value_type == TypeTag::Column
}

/// How many conditions of `kw` consume a placeholder.
pub open spec fn bind_count(kw: Seq<Kwargs>) -> nat
    decreases kw.len(),
{
    if kw.len() == 0 {
        0
    } else {
        bind_count(kw.drop_last()) + if is_bindable(kw.last()) {
            1nat
        } else {
            0nat
        }
    }
}

/// The abstract form of one bind argument.
pub open spec fn arg_view(a: Arg) -> (Seq<char>, TypeTag) {
    (a.value@, a.ty)
}

/// The abstract forms of an argument list.
pub open spec fn args_view(args: Seq<Arg>) -> Seq<(Seq<char>, TypeTag)> {
    args.map_values(|a: Arg| arg_view(a))
}

/// The arguments a condition sequence emits: the serialized value and tag
/// of every bindable condition, in sequence order. All three compilation
/// modes emit exactly this list.
pub open spec fn spec_args(kw: Seq<Kwargs>) -> Seq<(Seq<char>, TypeTag)>
    decreases kw.len(),
{
    if kw.len() == 0 {
        Seq::empty()
    } else {
        spec_args(kw.drop_last()) + match kw.last() {
            Kwargs::Condition { value, value_type, .. } => if value_type != TypeTag::Column {
                seq![(value@, value_type)]
            } else {
                Seq::empty()
            },
            Kwargs::LogicalOperator { .. } => Seq::empty(),
        }
    }
}

/// The rendered text of the placeholder with 1-based index `idx`.
pub open spec fn spec_placeholder(d: Dialect, idx: nat) -> Seq<char> {
    spec_placeholder_prefix(d) + dec_nat(idx)
}

/// The rendered text of one element of a WHERE/ON predicate, given the
/// 1-based index its placeholder would take: `field OP placeholder` for a
/// bindable condition, `field OP reference` for a column reference, and
/// the bare keyword for a connective.
pub open spec fn spec_select_item(k: Kwargs, d: Dialect, idx: nat) -> Seq<char> {
    match k {
        Kwargs::Condition { field, value, value_type, comparison_operator } => if value_type
            == TypeTag::Column {
            field@ + spec_compare_symbol(comparison_operator) + value@
        } else {
            field@ + spec_compare_symbol(comparison_operator) + spec_placeholder(d, idx)
        },
        Kwargs::LogicalOperator { operator } => spec_logical_keyword(operator),
    }
}

/// The parts of a WHERE/ON predicate, one per condition, in order, with
/// placeholder indices counting the bindable conditions from 1.
pub open spec fn spec_select_parts(kw: Seq<Kwargs>, d: Dialect) -> Seq<Seq<char>>
    decreases kw.len(),
{
    if kw.len() == 0 {
        Seq::empty()
    } else {
        spec_select_parts(kw.drop_last(), d).push(
            spec_select_item(kw.last(), d, bind_count(kw.drop_last()) + 1),
        )
    }
}

/// The predicate text of a WHERE/ON clause: the parts joined with single
/// spaces, in construction order — left-to-right text with no
/// parenthesization, so mixed `and`/`or` sequences inherit native SQL
/// operator precedence.
pub open spec fn spec_select_fragment(kw: Seq<Kwargs>, d: Dialect) -> Seq<char> {
    seq_join(spec_select_parts(kw, d), " "@)
}

/// Compiles a condition sequence into the predicate text of a WHERE or ON
/// clause. Each bindable condition renders as `field OP placeholder` and
/// emits one argument; a column reference renders verbatim and emits
/// none; a connective renders as its keyword. An empty sequence compiles
/// to an empty fragment and no arguments.
pub fn to_select_query(kw: Vec<Kwargs>, dialect: Dialect) -> (q: Query)
    ensures
        q.placeholders@ == spec_select_fragment(kw@, dialect),
        args_view(q.args@) == spec_args(kw@),
        q.fields@ == Seq::<char>::empty(),
{
    compile_select(&kw, dialect)
}

/// The WHERE/ON compiler proper, shared with the statement builder,
/// which compiles the same sequence it keeps.
pub fn compile_select(kw: &Vec<Kwargs>, dialect: Dialect) -> (q: Query)
    ensures
        q.placeholders@ == spec_select_fragment(kw@, dialect),
        args_view(q.args@) == spec_args(kw@),
        q.fields@ == Seq::<char>::empty(),
{
    let mut args: Vec<Arg> = Vec::new();
    let mut parts: Vec<String> = Vec::new();
    let mut index: u64 = 0;
    let mut i: usize = 0;
    proof {
        assert(kw@.take(0) =~= Seq::<Kwargs>::empty());
        assert(views_of(parts@) =~= Seq::<Seq<char>>::empty());
        assert(args_view(args@) =~= Seq::<(Seq<char>, TypeTag)>::empty());
    }
    while i < kw.len()
        invariant
            i <= kw.len(),
            index <= i,
            index == bind_count(kw@.take(i as int)),
            views_of(parts@) == spec_select_parts(kw@.take(i as int), dialect),
            args_view(args@) == spec_args(kw@.take(i as int)),
        decreases kw.len() - i,
    {
        proof {
            assert(kw@.take(i as int + 1).drop_last() =~= kw@.take(i as int));
            assert(kw@.take(i as int + 1).last() == kw@[i as int]);
        }
        let ghost old_parts = parts@;
        let ghost old_args = args@;
        match &kw[i] {
            Kwargs::Condition { field, value, value_type, comparison_operator } => {
                if *value_type == TypeTag::Column {
                    let mut part = field.clone();
                    part.append(comparison_operator.symbol());
                    part.append(value.as_str());
                    proof {
                        assert(part@ =~= spec_select_item(
                            kw@[i as int],
                            dialect,
                            (index + 1) as nat,
                        ));
                    }
                    parts.push(part);
                } else {
                    index = index + 1;
                    let num = format_u64(index);
                    let mut part = field.clone();
                    part.append(comparison_operator.symbol());
                    part.append(dialect.placeholder_prefix());
                    part.append(num.as_str());
                    proof {
                        assert(part@ =~= spec_select_item(kw@[i as int], dialect, index as nat));
                    }
                    parts.push(part);
                    args.push(Arg { value: value.clone(), ty: *value_type });
                }
            },
            Kwargs::LogicalOperator { operator } => {
                let part = operator.keyword().to_owned();
                parts.push(part);
            },
        }
        proof {
            assert(views_of(parts@) =~= spec_select_parts(kw@.take(i as int + 1), dialect));
            assert(args_view(args@) =~= spec_args(kw@.take(i as int + 1)));
        }
        i += 1;
    }
    proof {
        assert(kw@.take(kw.len() as int) =~= kw@);
    }
    let placeholders = join_strings(&parts, " ");
    Query { placeholders, fields: String::new(), args }
}

/// No element of `kw` is a column-reference condition. Column references
/// belong in WHERE and ON predicates; in a SET or INSERT list one would
/// have to be bound as a plain value, which the data model rules out, so
/// the UPDATE and INSERT compilers treat one as an input-contract
/// violation.
pub open spec fn no_column_conditions(kw: Seq<Kwargs>) -> bool {
    forall|j: int| 0 <= j < kw.len() ==> !is_column_condition(#[trigger] kw[j])
}

/// Every element of `kw` is a bindable field condition: no connectives
/// (meaningless in an INSERT, an input-contract violation rather than a
/// silent skip) and no column references.
pub open spec fn all_bindable_conditions(kw: Seq<Kwargs>) -> bool {
    forall|j: int| 0 <= j < kw.len() ==> is_bindable(#[trigger] kw[j])
}

/// The field name of a field condition.
pub open spec fn field_of(k: Kwargs) -> Seq<char> {
    match k {
        Kwargs::Condition { field, .. } => field@,
        Kwargs::LogicalOperator { .. } => Seq::empty(),
    }
}

/// The parts of a SET list: `field=placeholder` for every field
/// condition, with embedded connectives ignored — SET lists are always
/// conjunctive.
pub open spec fn spec_update_parts(kw: Seq<Kwargs>, d: Dialect) -> Seq<Seq<char>>
    decreases kw.len(),
{
    if kw.len() == 0 {
        Seq::empty()
    } else {
        spec_update_parts(kw.drop_last(), d) + match kw.last() {
            Kwargs::Condition { field, .. } => seq![
                field@ + "="@ + spec_placeholder(d, bind_count(kw.drop_last()) + 1),
            ],
            Kwargs::LogicalOperator { .. } => Seq::empty(),
        }
    }
}

/// Compiles a condition sequence into the SET list of an UPDATE
/// statement: `field=placeholder` pairs joined by `", "`, one argument
/// per pair, with connectives ignored. It appends no trailing clause; the
/// caller appends the terminal primary-key predicate using the next free
/// placeholder index.
pub fn to_update_query(kw: Vec<Kwargs>, dialect: Dialect) -> (q: Query)
    requires
        no_column_conditions(kw@),
    ensures
        q.placeholders@ == seq_join(spec_update_parts(kw@, dialect), ", "@),
        args_view(q.args@) == spec_args(kw@),
        q.fields@ == Seq::<char>::empty(),
{
    let mut args: Vec<Arg> = Vec::new();
    let mut parts: Vec<String> = Vec::new();
    let mut index: u64 = 0;
    let mut i: usize = 0;
    proof {
        assert(kw@.take(0) =~= Seq::<Kwargs>::empty());
        assert(views_of(parts@) =~= Seq::<Seq<char>>::empty());
        assert(args_view(args@) =~= Seq::<(Seq<char>, TypeTag)>::empty());
    }
    while i < kw.len()
        invariant
            i <= kw.len(),
            index <= i,
            no_column_conditions(kw@),
            index == bind_count(kw@.take(i as int)),
            views_of(parts@) == spec_update_parts(kw@.take(i as int), dialect),
            args_view(args@) == spec_args(kw@.take(i as int)),
        decreases kw.len() - i,
    {
        proof {
            assert(kw@.take(i as int + 1).drop_last() =~= kw@.take(i as int));
            assert(kw@.take(i as int + 1).last() == kw@[i as int]);
        }
        match &kw[i] {
            Kwargs::Condition { field, value, value_type, comparison_operator: _ } => {
                proof {
                    assert(!is_column_condition(kw@[i as int]));
                }
                index = index + 1;
                let num = format_u64(index);
                let mut part = field.clone();
                part.append("=");
                part.append(dialect.placeholder_prefix());
                part.append(num.as_str());
                proof {
                    assert(part@ =~= field_of(kw@[i as int]) + "="@ + spec_placeholder(
                        dialect,
                        index as nat,
                    ));
                }
                parts.push(part);
                args.push(Arg { value: value.clone(), ty: *value_type });
            },
            Kwargs::LogicalOperator { .. } => {},
        }
        proof {
            assert(views_of(parts@) =~= spec_update_parts(kw@.take(i as int + 1), dialect));
            assert(args_view(args@) =~= spec_args(kw@.take(i as int + 1)));
        }
        i += 1;
    }
    proof {
        assert(kw@.take(kw.len() as int) =~= kw@);
    }
    let placeholders = join_strings(&parts, ", ");
    Query { placeholders, fields: String::new(), args }
}

/// The field names of an INSERT list, in sequence order.
pub open spec fn spec_insert_fields(kw: Seq<Kwargs>) -> Seq<Seq<char>>
    decreases kw.len(),
{
    if kw.len() == 0 {
        Seq::empty()
    } else {
        spec_insert_fields(kw.drop_last()) + match kw.last() {
            Kwargs::Condition { field, .. } => seq![field@],
            Kwargs::LogicalOperator { .. } => Seq::empty(),
        }
    }
}

/// The placeholder texts of an INSERT list, indexed from 1 in emission
/// order.
pub open spec fn spec_insert_placeholders(kw: Seq<Kwargs>, d: Dialect) -> Seq<Seq<char>>
    decreases kw.len(),
{
    if kw.len() == 0 {
        Seq::empty()
    } else {
        spec_insert_placeholders(kw.drop_last(), d) + match kw.last() {
            Kwargs::Condition { .. } => seq![spec_placeholder(d, bind_count(kw.drop_last()) + 1)],
            Kwargs::LogicalOperator { .. } => Seq::empty(),
        }
    }
}

/// Compiles a condition sequence into the three pieces of an INSERT
/// statement: the comma-joined field names, the comma-joined placeholder
/// list, and the same-order argument list. Every condition is treated as
/// `field = value`.
pub fn to_insert_query(kw: Vec<Kwargs>, dialect: Dialect) -> (q: Query)
    requires
        all_bindable_conditions(kw@),
    ensures
        q.fields@ == seq_join(spec_insert_fields(kw@), ", "@),
        q.placeholders@ == seq_join(spec_insert_placeholders(kw@, dialect), ", "@),
        args_view(q.args@) == spec_args(kw@),
{
    let mut args: Vec<Arg> = Vec::new();
    let mut fields: Vec<String> = Vec::new();
    let mut parts: Vec<String> = Vec::new();
    let mut index: u64 = 0;
    let mut i: usize = 0;
    proof {
        assert(kw@.take(0) =~= Seq::<Kwargs>::empty());
        assert(views_of(parts@) =~= Seq::<Seq<char>>::empty());
        assert(views_of(fields@) =~= Seq::<Seq<char>>::empty());
        assert(args_view(args@) =~= Seq::<(Seq<char>, TypeTag)>::empty());
    }
    while i < kw.len()
        invariant
            i <= kw.len(),
            index <= i,
            all_bindable_conditions(kw@),
            index == bind_count(kw@.take(i as int)),
            views_of(fields@) == spec_insert_fields(kw@.take(i as int)),
            views_of(parts@) == spec_insert_placeholders(kw@.take(i as int), dialect),
            args_view(args@) == spec_args(kw@.take(i as int)),
        decreases kw.len() - i,
    {
        proof {
            assert(kw@.take(i as int + 1).drop_last() =~= kw@.take(i as int));
            assert(kw@.take(i as int + 1).last() == kw@[i as int]);
        }
        match &kw[i] {
            Kwargs::Condition { field, value, value_type, comparison_operator: _ } => {
                proof {
                    assert(is_bindable(kw@[i as int]));
                }
                index = index + 1;
                let mut part = dialect.placeholder_prefix().to_owned();
                let num = format_u64(index);
                part.append(num.as_str());
                proof {
                    assert(part@ =~= spec_placeholder(dialect, index as nat));
                }
                fields.push(field.clone());
                parts.push(part);
                args.push(Arg { value: value.clone(), ty: *value_type });
            },
            Kwargs::LogicalOperator { .. } => {},
        }
        proof {
            assert(views_of(fields@) =~= spec_insert_fields(kw@.take(i as int + 1)));
            assert(views_of(parts@) =~= spec_insert_placeholders(kw@.take(i as int + 1), dialect));
            assert(args_view(args@) =~= spec_args(kw@.take(i as int + 1)));
        }
        i += 1;
    }
    proof {
        assert(kw@.take(kw.len() as int) =~= kw@);
    }
    let fields_text = join_strings(&fields, ", ");
    let placeholders = join_strings(&parts, ", ");
    Query { placeholders, fields: fields_text, args }
}

// ---------------------------------------------------------------------------
// Laws of the compilers
// ---------------------------------------------------------------------------

/// A compilation emits exactly one argument per bindable condition.
pub proof fn lemma_args_len(kw: Seq<Kwargs>)
    ensures
        spec_args(kw).len() == bind_count(kw),
    decreases kw.len(),
{
    if kw.len() > 0 {
        lemma_args_len(kw.drop_last());
    }
}

/// Taking a longer prefix never decreases the number of bindable
/// conditions in it.
pub proof fn lemma_bind_count_mono(kw: Seq<Kwargs>, a: int, b: int)
    requires
        0 <= a <= b <= kw.len(),
    ensures
        bind_count(kw.take(a)) <= bind_count(kw.take(b)),
    decreases b - a,
{
    if a < b {
        lemma_bind_count_mono(kw, a, b - 1);
        assert(kw.take(b).drop_last() =~= kw.take(b - 1));
        assert(kw.take(b).last() == kw[b - 1]);
    }
}

/// Extending a prefix by one element adds one to its bindable count
/// exactly when that element is bindable.
pub proof fn lemma_bind_count_step(kw: Seq<Kwargs>, j: int)
    requires
        0 <= j < kw.len(),
    ensures
        bind_count(kw.take(j + 1)) == bind_count(kw.take(j)) + if is_bindable(kw[j]) {
            1nat
        } else {
            0nat
        },
{
    assert(kw.take(j + 1).drop_last() =~= kw.take(j));
    assert(kw.take(j + 1).last() == kw[j]);
}

/// The WHERE fragment has one part per condition.
pub proof fn lemma_select_parts_len(kw: Seq<Kwargs>, d: Dialect)
    ensures
        spec_select_parts(kw, d).len() == kw.len(),
    decreases kw.len(),
{
    if kw.len() > 0 {
        lemma_select_parts_len(kw.drop_last(), d);
    }
}

/// The part a condition renders to, at its own position: its placeholder
/// index is one more than the number of bindable conditions before it.
pub proof fn lemma_select_parts_index(kw: Seq<Kwargs>, d: Dialect, j: int)
    requires
        0 <= j < kw.len(),
    ensures
        spec_select_parts(kw, d)[j] == spec_select_item(kw[j], d, bind_count(kw.take(j)) + 1),
    decreases kw.len(),
{
    lemma_select_parts_len(kw.drop_last(), d);
    if j == kw.len() - 1 {
        assert(kw.take(j) =~= kw.drop_last());
    } else {
        lemma_select_parts_index(kw.drop_last(), d, j);
        assert(kw.drop_last().take(j) =~= kw.take(j));
        assert(kw.drop_last()[j] == kw[j]);
    }
}

/// Placeholder-indexing law of the SELECT compiler: a non-empty
/// compilation emits exactly one placeholder and one argument per
/// non-column field condition; each such condition renders with the index
/// that counts the bindable conditions up to and including it, so the
/// emitted indices start at 1, increase strictly left to right, and end
/// at the argument count.
pub proof fn lemma_select_placeholder_indices(kw: Seq<Kwargs>, d: Dialect)
    ensures
        spec_args(kw).len() == bind_count(kw),
        spec_select_parts(kw, d).len() == kw.len(),
        forall|j: int|
            0 <= j < kw.len() && is_bindable(#[trigger] kw[j]) ==> spec_select_parts(kw, d)[j]
                == spec_select_item(kw[j], d, bind_count(kw.take(j)) + 1),
        forall|j: int|
            0 <= j < kw.len() && is_bindable(#[trigger] kw[j]) ==> 1 <= bind_count(kw.take(j)) + 1
                <= bind_count(kw),
        forall|j1: int, j2: int|
            0 <= j1 < j2 < kw.len() && is_bindable(#[trigger] kw[j1]) && is_bindable(
                #[trigger] kw[j2],
            ) ==> bind_count(kw.take(j1)) + 1 < bind_count(kw.take(j2)) + 1,
{
    lemma_args_len(kw);
    lemma_select_parts_len(kw, d);
    assert forall|j: int| 0 <= j < kw.len() && is_bindable(#[trigger] kw[j]) implies
    spec_select_parts(kw, d)[j] == spec_select_item(kw[j], d, bind_count(kw.take(j)) + 1) by {
        lemma_select_parts_index(kw, d, j);
    }
    assert forall|j: int| 0 <= j < kw.len() && is_bindable(#[trigger] kw[j]) implies 1
        <= bind_count(kw.take(j)) + 1 <= bind_count(kw) by {
        lemma_bind_count_step(kw, j);
        lemma_bind_count_mono(kw, j + 1, kw.len() as int);
        assert(kw.take(kw.len() as int) =~= kw);
    }
    assert forall|j1: int, j2: int|
        0 <= j1 < j2 < kw.len() && is_bindable(#[trigger] kw[j1]) && is_bindable(
            #[trigger] kw[j2],
        ) implies bind_count(kw.take(j1)) + 1 < bind_count(kw.take(j2)) + 1 by {
        lemma_bind_count_step(kw, j1);
        lemma_bind_count_mono(kw, j1 + 1, j2);
    }
}

/// A string of digits contains no comma.
proof fn lemma_all_digits_no_comma(s: Seq<char>)
    requires
        all_digits(s),
    ensures
        char_count(s, ',') == 0,
    decreases s.len(),
{
    if s.len() > 0 {
        assert(all_digits(s.drop_last()));
        lemma_all_digits_no_comma(s.drop_last());
        assert(is_digit(s.last()));
    }
}

/// A rendered placeholder contains no comma: its prefix is `?` or `$`
/// and the rest is digits.
proof fn lemma_placeholder_no_comma(d: Dialect, idx: nat)
    ensures
        char_count(spec_placeholder(d, idx), ',') == 0,
{
    reveal_strlit("?");
    reveal_strlit("$");
    let p = spec_placeholder_prefix(d);
    assert(p.drop_last() =~= Seq::<char>::empty());
    assert(char_count(Seq::<char>::empty(), ',') == 0);
    assert(char_count(p, ',') == 0);
    lemma_dec_nat_digits(idx);
    lemma_all_digits_no_comma(dec_nat(idx));
    crate::strutil::lemma_char_count_concat(p, dec_nat(idx), ',');
}

/// The separator `", "` contains exactly one comma.
proof fn lemma_sep_one_comma()
    ensures
        char_count(", "@, ',') == 1,
{
    reveal_strlit(", ");
    let s = ", "@;
    assert(s.len() == 2);
    assert(s.drop_last().drop_last() =~= Seq::<char>::empty());
    assert(char_count(Seq::<char>::empty(), ',') == 0);
    assert(s.drop_last().last() == ',');
    assert(char_count(s.drop_last(), ',') == 1);
    assert(s.last() == ' ');
}

/// The INSERT lists have one element per condition.
pub proof fn lemma_insert_lens(kw: Seq<Kwargs>, d: Dialect)
    requires
        all_bindable_conditions(kw),
    ensures
        spec_insert_fields(kw).len() == kw.len(),
        spec_insert_placeholders(kw, d).len() == kw.len(),
        bind_count(kw) == kw.len(),
    decreases kw.len(),
{
    if kw.len() > 0 {
        assert(all_bindable_conditions(kw.drop_last()));
        lemma_insert_lens(kw.drop_last(), d);
        assert(is_bindable(kw.last()));
    }
}

/// The field name and placeholder at one position of the INSERT lists.
proof fn lemma_insert_parts_index(kw: Seq<Kwargs>, d: Dialect, j: int)
    requires
        all_bindable_conditions(kw),
        0 <= j < kw.len(),
    ensures
        spec_insert_fields(kw)[j] == field_of(kw[j]),
        spec_insert_placeholders(kw, d)[j] == spec_placeholder(d, bind_count(kw.take(j)) + 1),
    decreases kw.len(),
{
    assert(all_bindable_conditions(kw.drop_last()));
    lemma_insert_lens(kw.drop_last(), d);
    assert(is_bindable(kw.last()));
    if j == kw.len() - 1 {
        assert(kw.take(j) =~= kw.drop_last());
    } else {
        lemma_insert_parts_index(kw.drop_last(), d, j);
        assert(kw.drop_last().take(j) =~= kw.take(j));
        assert(kw.drop_last()[j] == kw[j]);
    }
}

/// Counting law of the INSERT compiler: the field list, the placeholder
/// list and the argument list all have exactly one element per condition.
/// The placeholder text never contains a comma, and when no field name
/// contains one either, the two comma-joined texts hold exactly one comma
/// per gap — so splitting either on `", "` yields exactly as many pieces
/// as there are arguments.
pub proof fn lemma_insert_counts(kw: Seq<Kwargs>, d: Dialect)
    requires
        all_bindable_conditions(kw),
    ensures
        spec_insert_fields(kw).len() == kw.len(),
        spec_insert_placeholders(kw, d).len() == kw.len(),
        spec_args(kw).len() == kw.len(),
        kw.len() > 0 ==> char_count(seq_join(spec_insert_placeholders(kw, d), ", "@), ',')
            == kw.len() - 1,
        kw.len() > 0 && (forall|j: int|
            0 <= j < kw.len() ==> char_count(field_of(#[trigger] kw[j]), ',') == 0)
            ==> char_count(seq_join(spec_insert_fields(kw), ", "@), ',') == kw.len() - 1,
{
    lemma_insert_lens(kw, d);
    lemma_args_len(kw);
    lemma_sep_one_comma();
    if kw.len() > 0 {
        let phs = spec_insert_placeholders(kw, d);
        assert forall|j: int| 0 <= j < phs.len() implies char_count(#[trigger] phs[j], ',')
            == 0 by {
            lemma_insert_parts_index(kw, d, j);
            lemma_placeholder_no_comma(d, bind_count(kw.take(j)) + 1);
        }
        lemma_char_count_join(phs, ", "@, ',');
        if forall|j: int| 0 <= j < kw.len() ==> char_count(field_of(#[trigger] kw[j]), ',') == 0 {
            let fs = spec_insert_fields(kw);
            assert forall|j: int| 0 <= j < fs.len() implies char_count(#[trigger] fs[j], ',')
                == 0 by {
                lemma_insert_parts_index(kw, d, j);
            }
            lemma_char_count_join(fs, ", "@, ',');
        }
    }
}

} // verus!
