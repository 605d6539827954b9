//! The canonical text of a provisioning recipe: what a derivation key is
//! taken over. Every field is written with its length in front and every
//! list with its count, so that no two recipes are written alike.
use vstd::prelude::*;
use vstd::utf8::{encode_utf8, encode_utf8_decode_utf8};
use crate::env::EnvVar;
use crate::repository::{Repository, RepositoryView};
use crate::text::{decimal, decimal_text, decimal_value, digit_char, is_digit};
use crate::trusted::push_char;

verus! {

/// Variables as contracts speak of them.
pub type Variables = Seq<(Seq<char>, Seq<char>)>;

/// A number, closed by `sep`.
pub open spec fn number(n: nat, sep: char) -> Seq<char> {
    decimal_text(n).push(sep)
}

/// A field: the number of its characters, a colon, the characters.
pub open spec fn field(s: Seq<char>) -> Seq<char> {
    number(s.len(), ':') + s
}

/// A reference: `-` where there is none, `+` and the field where there is one.
pub open spec fn reference_text(reference: Option<Seq<char>>) -> Seq<char> {
    match reference {
        None => seq!['-'],
        Some(r) => seq!['+'] + field(r),
    }
}

/// One repository: URL, path and reference.
pub open spec fn repository_text(r: RepositoryView) -> Seq<char> {
    field(r.url) + field(r.path) + reference_text(r.reference)
}

/// The repositories one after the other.
pub open spec fn repositories_items(rs: Seq<RepositoryView>) -> Seq<char>
    decreases rs.len(),
{
    if rs.len() == 0 {
        Seq::empty()
    } else {
        repository_text(rs[0]) + repositories_items(rs.drop_first())
    }
}

/// A list of repositories: how many there are, then each in its order.
pub open spec fn repositories_text(rs: Seq<RepositoryView>) -> Seq<char> {
    number(rs.len(), ';') + repositories_items(rs)
}

/// One variable: its name, then its value.
pub open spec fn variable_text(v: (Seq<char>, Seq<char>)) -> Seq<char> {
    field(v.0) + field(v.1)
}

/// The variables one after the other.
pub open spec fn variables_items(vs: Variables) -> Seq<char>
    decreases vs.len(),
{
    if vs.len() == 0 {
        Seq::empty()
    } else {
        variable_text(vs[0]) + variables_items(vs.drop_first())
    }
}

/// A list of variables: how many there are, then each in its order.
pub open spec fn variables_text(vs: Variables) -> Seq<char> {
    number(vs.len(), ';') + variables_items(vs)
}

/// The bytes of a text.
pub open spec fn bytes_of(text: Seq<char>) -> Seq<u8> {
    encode_utf8(text)
}

/// Different texts have different bytes.
pub proof fn lemma_bytes_tell_texts_apart(a: Seq<char>, b: Seq<char>)
    requires
        bytes_of(a) == bytes_of(b),
    ensures
        a == b,
{
    encode_utf8_decode_utf8(a);
    encode_utf8_decode_utf8(b);
}

/// A number is written with digits only, and with at least one.
pub proof fn lemma_decimal_is_digits(n: nat)
    ensures
        decimal_text(n).len() > 0,
        forall|i: int| 0 <= i < decimal_text(n).len() ==> is_digit(#[trigger] decimal_text(n)[i]),
        decimal_value(decimal_text(n)) == n,
    decreases n,
{
    if n >= 10 {
        lemma_decimal_is_digits(n / 10);
        let shorter = decimal_text(n / 10);
        let d = digit_char((n % 10) as int);
        assert(shorter.push(d).drop_last() =~= shorter);
        assert forall|i: int| 0 <= i < decimal_text(n).len() implies is_digit(
            #[trigger] decimal_text(n)[i],
        ) by {
            if i < shorter.len() {
                assert(decimal_text(n)[i] == shorter[i]);
            }
        }
    } else {
        let single = seq![digit_char(n as int)];
        assert(single.drop_last() =~= Seq::<char>::empty());
        assert(decimal_value(single.drop_last()) == 0);
    }
}

/// A closed number is read back from the front of whatever follows it:
/// two texts that begin with closed numbers and are the same text begin
/// with the same number and go on alike.
pub proof fn lemma_number_read_back(n: nat, m: nat, sep: char, x: Seq<char>, y: Seq<char>)
    requires
        !is_digit(sep),
        number(n, sep) + x == number(m, sep) + y,
    ensures
        n == m,
        x == y,
{
    lemma_decimal_is_digits(n);
    lemma_decimal_is_digits(m);
    let a = decimal_text(n);
    let b = decimal_text(m);
    let s = number(n, sep) + x;
    let t = number(m, sep) + y;
    assert(s[a.len() as int] == sep);
    assert(t[b.len() as int] == sep);
    if a.len() < b.len() {
        assert(t[a.len() as int] == b[a.len() as int]);
    } else if b.len() < a.len() {
        assert(s[b.len() as int] == a[b.len() as int]);
    }
    assert(a.len() == b.len());
    assert(a =~= b) by {
        assert forall|i: int| 0 <= i < a.len() implies a[i] == b[i] by {
            assert(s[i] == a[i]);
            assert(t[i] == b[i]);
        }
    }
    assert(x =~= s.skip(a.len() as int + 1));
    assert(y =~= t.skip(b.len() as int + 1));
}

/// A field is read back from the front of whatever follows it.
pub proof fn lemma_field_read_back(a: Seq<char>, b: Seq<char>, x: Seq<char>, y: Seq<char>)
    requires
        field(a) + x == field(b) + y,
    ensures
        a == b,
        x == y,
{
    assert(field(a) + x =~= number(a.len(), ':') + (a + x));
    assert(field(b) + y =~= number(b.len(), ':') + (b + y));
    lemma_number_read_back(a.len(), b.len(), ':', a + x, b + y);
    assert(a =~= (a + x).take(a.len() as int));
    assert(b =~= (b + y).take(b.len() as int));
    assert(x =~= (a + x).skip(a.len() as int));
    assert(y =~= (b + y).skip(b.len() as int));
}

/// A reference is read back from the front of whatever follows it.
pub proof fn lemma_reference_read_back(
    a: Option<Seq<char>>,
    b: Option<Seq<char>>,
    x: Seq<char>,
    y: Seq<char>,
)
    requires
        reference_text(a) + x == reference_text(b) + y,
    ensures
        a == b,
        x == y,
{
    let s = reference_text(a) + x;
    let t = reference_text(b) + y;
    assert(s[0] == reference_text(a)[0]);
    assert(t[0] == reference_text(b)[0]);
    match (a, b) {
        (None, None) => {
            assert(x =~= s.skip(1));
            assert(y =~= t.skip(1));
        },
        (Some(p), Some(q)) => {
            assert(field(p) + x =~= s.skip(1));
            assert(field(q) + y =~= t.skip(1));
            lemma_field_read_back(p, q, x, y);
        },
        _ => {},
    }
}

/// A repository is read back from the front of whatever follows it.
pub proof fn lemma_repository_read_back(
    a: RepositoryView,
    b: RepositoryView,
    x: Seq<char>,
    y: Seq<char>,
)
    requires
        repository_text(a) + x == repository_text(b) + y,
    ensures
        a == b,
        x == y,
{
    let rest_a = field(a.path) + (reference_text(a.reference) + x);
    let rest_b = field(b.path) + (reference_text(b.reference) + y);
    assert(repository_text(a) + x =~= field(a.url) + rest_a);
    assert(repository_text(b) + y =~= field(b.url) + rest_b);
    lemma_field_read_back(a.url, b.url, rest_a, rest_b);
    lemma_field_read_back(
        a.path,
        b.path,
        reference_text(a.reference) + x,
        reference_text(b.reference) + y,
    );
    lemma_reference_read_back(a.reference, b.reference, x, y);
}

/// As many repositories as were written are read back from the front of
/// whatever follows them.
pub proof fn lemma_repositories_items_read_back(
    a: Seq<RepositoryView>,
    b: Seq<RepositoryView>,
    x: Seq<char>,
    y: Seq<char>,
)
    requires
        a.len() == b.len(),
        repositories_items(a) + x == repositories_items(b) + y,
    ensures
        a == b,
        x == y,
    decreases a.len(),
{
    if a.len() == 0 {
        assert(a =~= b);
        assert(repositories_items(a) + x =~= x);
        assert(repositories_items(b) + y =~= y);
    } else {
        let rest_a = repositories_items(a.drop_first()) + x;
        let rest_b = repositories_items(b.drop_first()) + y;
        assert(repositories_items(a) + x =~= repository_text(a[0]) + rest_a);
        assert(repositories_items(b) + y =~= repository_text(b[0]) + rest_b);
        lemma_repository_read_back(a[0], b[0], rest_a, rest_b);
        lemma_repositories_items_read_back(a.drop_first(), b.drop_first(), x, y);
        assert(a =~= seq![a[0]] + a.drop_first());
        assert(b =~= seq![b[0]] + b.drop_first());
    }
}

/// A list of repositories is read back from the front of whatever follows it.
pub proof fn lemma_repositories_read_back(
    a: Seq<RepositoryView>,
    b: Seq<RepositoryView>,
    x: Seq<char>,
    y: Seq<char>,
)
    requires
        repositories_text(a) + x == repositories_text(b) + y,
    ensures
        a == b,
        x == y,
{
    let rest_a = repositories_items(a) + x;
    let rest_b = repositories_items(b) + y;
    assert(repositories_text(a) + x =~= number(a.len(), ';') + rest_a);
    assert(repositories_text(b) + y =~= number(b.len(), ';') + rest_b);
    lemma_number_read_back(a.len(), b.len(), ';', rest_a, rest_b);
    lemma_repositories_items_read_back(a, b, x, y);
}

/// A variable is read back from the front of whatever follows it.
pub proof fn lemma_variable_read_back(
    a: (Seq<char>, Seq<char>),
    b: (Seq<char>, Seq<char>),
    x: Seq<char>,
    y: Seq<char>,
)
    requires
        variable_text(a) + x == variable_text(b) + y,
    ensures
        a == b,
        x == y,
{
    assert(variable_text(a) + x =~= field(a.0) + (field(a.1) + x));
    assert(variable_text(b) + y =~= field(b.0) + (field(b.1) + y));
    lemma_field_read_back(a.0, b.0, field(a.1) + x, field(b.1) + y);
    lemma_field_read_back(a.1, b.1, x, y);
}

/// As many variables as were written are read back from the front of
/// whatever follows them.
pub proof fn lemma_variables_items_read_back(a: Variables, b: Variables, x: Seq<char>, y: Seq<char>)
    requires
        a.len() == b.len(),
        variables_items(a) + x == variables_items(b) + y,
    ensures
        a == b,
        x == y,
    decreases a.len(),
{
    if a.len() == 0 {
        assert(a =~= b);
        assert(variables_items(a) + x =~= x);
        assert(variables_items(b) + y =~= y);
    } else {
        let rest_a = variables_items(a.drop_first()) + x;
        let rest_b = variables_items(b.drop_first()) + y;
        assert(variables_items(a) + x =~= variable_text(a[0]) + rest_a);
        assert(variables_items(b) + y =~= variable_text(b[0]) + rest_b);
        lemma_variable_read_back(a[0], b[0], rest_a, rest_b);
        lemma_variables_items_read_back(a.drop_first(), b.drop_first(), x, y);
        assert(a =~= seq![a[0]] + a.drop_first());
        assert(b =~= seq![b[0]] + b.drop_first());
    }
}

/// A list of variables is read back from the front of whatever follows it.
pub proof fn lemma_variables_read_back(a: Variables, b: Variables, x: Seq<char>, y: Seq<char>)
    requires
        variables_text(a) + x == variables_text(b) + y,
    ensures
        a == b,
        x == y,
{
    let rest_a = variables_items(a) + x;
    let rest_b = variables_items(b) + y;
    assert(variables_text(a) + x =~= number(a.len(), ';') + rest_a);
    assert(variables_text(b) + y =~= number(b.len(), ';') + rest_b);
    lemma_number_read_back(a.len(), b.len(), ';', rest_a, rest_b);
    lemma_variables_items_read_back(a, b, x, y);
}

/// One more repository at the end of a list adds its text at the end.
pub proof fn lemma_repositories_items_push(rs: Seq<RepositoryView>, r: RepositoryView)
    ensures
        repositories_items(rs.push(r)) == repositories_items(rs) + repository_text(r),
    decreases rs.len(),
{
    let longer = rs.push(r);
    if rs.len() == 0 {
        assert(longer[0] == r);
        assert(longer.drop_first() =~= Seq::<RepositoryView>::empty());
        assert(repositories_items(longer.drop_first()) =~= Seq::<char>::empty());
        assert(repositories_items(longer) =~= repository_text(r));
        assert(repositories_items(rs) + repository_text(r) =~= repository_text(r));
    } else {
        assert(longer[0] == rs[0]);
        assert(longer.drop_first() =~= rs.drop_first().push(r));
        lemma_repositories_items_push(rs.drop_first(), r);
        assert(repository_text(rs[0]) + (repositories_items(rs.drop_first()) + repository_text(
            r,
        )) =~= repositories_items(rs) + repository_text(r));
    }
}

/// One more variable at the end of a list adds its text at the end.
pub proof fn lemma_variables_items_push(vs: Variables, v: (Seq<char>, Seq<char>))
    ensures
        variables_items(vs.push(v)) == variables_items(vs) + variable_text(v),
    decreases vs.len(),
{
    let longer = vs.push(v);
    if vs.len() == 0 {
        assert(longer[0] == v);
        assert(longer.drop_first() =~= Seq::<(Seq<char>, Seq<char>)>::empty());
        assert(variables_items(longer.drop_first()) =~= Seq::<char>::empty());
        assert(variables_items(longer) =~= variable_text(v));
        assert(variables_items(vs) + variable_text(v) =~= variable_text(v));
    } else {
        assert(longer[0] == vs[0]);
        assert(longer.drop_first() =~= vs.drop_first().push(v));
        lemma_variables_items_push(vs.drop_first(), v);
        assert(variable_text(vs[0]) + (variables_items(vs.drop_first()) + variable_text(v))
            =~= variables_items(vs) + variable_text(v));
    }
}

/// Writes a closed number at the end of `out`.
pub fn write_number(out: &mut String, n: usize, sep: char)
    ensures
        final(out)@ == old(out)@ + number(n as nat, sep),
{
    let ghost before = out@;
    out.append(decimal(n as u64).as_str());
    push_char(out, sep);
    proof {
        assert(out@ =~= before + number(n as nat, sep));
    }
}

/// Writes a field at the end of `out`.
pub fn write_field(out: &mut String, s: &str)
    ensures
        final(out)@ == old(out)@ + field(s@),
{
    let ghost before = out@;
    write_number(out, s.unicode_len(), ':');
    out.append(s);
    proof {
        assert(out@ =~= before + field(s@));
    }
}

/// Writes a list of repositories at the end of `out`.
pub fn write_repositories(out: &mut String, repositories: &Vec<Repository>)
    ensures
        final(out)@ == old(out)@ + repositories_text(repositories.deep_view()),
{
    let ghost before = out@;
    let ghost all = repositories.deep_view();
    write_number(out, repositories.len(), ';');
    let ghost start = out@;
    let mut i: usize = 0;
    proof {
        assert(all.take(0) =~= Seq::<RepositoryView>::empty());
        assert(start + repositories_items(all.take(0)) =~= start);
    }
    while i < repositories.len()
        invariant
            i <= repositories.len(),
            all == repositories.deep_view(),
            out@ == start + repositories_items(all.take(i as int)),
        decreases repositories.len() - i,
    {
        let repository = &repositories[i];
        let ghost so_far = out@;
        write_field(out, repository.url.as_str());
        write_field(out, repository.path.as_str());
        match &repository.reference {
            Some(reference) => {
                push_char(out, '+');
                write_field(out, reference.as_str());
            },
            None => {
                push_char(out, '-');
            },
        }
        proof {
            assert(all[i as int] == repository@);
            assert(out@ =~= so_far + repository_text(repository@));
            assert(all.take(i + 1) =~= all.take(i as int).push(all[i as int]));
            lemma_repositories_items_push(all.take(i as int), all[i as int]);
            assert(out@ =~= start + repositories_items(all.take(i + 1)));
        }
        i += 1;
    }
    proof {
        assert(all.take(repositories.len() as int) =~= all);
        assert(all.len() == repositories.len());
        assert(out@ =~= before + repositories_text(all));
    }
}

/// Writes a list of variables at the end of `out`.
pub fn write_variables(out: &mut String, variables: &Vec<EnvVar>)
    ensures
        final(out)@ == old(out)@ + variables_text(variables.deep_view()),
{
    let ghost before = out@;
    let ghost all = variables.deep_view();
    write_number(out, variables.len(), ';');
    let ghost start = out@;
    let mut i: usize = 0;
    proof {
        assert(all.take(0) =~= Seq::<(Seq<char>, Seq<char>)>::empty());
        assert(start + variables_items(all.take(0)) =~= start);
    }
    while i < variables.len()
        invariant
            i <= variables.len(),
            all == variables.deep_view(),
            out@ == start + variables_items(all.take(i as int)),
        decreases variables.len() - i,
    {
        let ghost so_far = out@;
        write_field(out, variables[i].0.as_str());
        write_field(out, variables[i].1.as_str());
        proof {
            assert(all[i as int] == (variables[i as int].0@, variables[i as int].1@));
            assert(out@ =~= so_far + variable_text(all[i as int]));
            assert(all.take(i + 1) =~= all.take(i as int).push(all[i as int]));
            lemma_variables_items_push(all.take(i as int), all[i as int]);
            assert(out@ =~= start + variables_items(all.take(i + 1)));
        }
        i += 1;
    }
    proof {
        assert(all.take(variables.len() as int) =~= all);
        assert(all.len() == variables.len());
        assert(out@ =~= before + variables_text(all));
    }
}

} // verus!
