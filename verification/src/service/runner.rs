//! What a run over many files does with each file, and what it makes of the
//! batches that come back in whatever order the workers finish.

use vstd::prelude::*;
use vstd::relations::total_ordering;
use vstd::utf8::decode_utf8;
use vstd::utf8::valid_utf8;

use crate::collection::reversed;
use crate::diagnostic::Diagnostic;
use crate::diagnostic::diagnostic_leq;
use crate::diagnostic::DiagnosticView;
use crate::diagnostic::lemma_diagnostic_leq_total;
use crate::document::Document;
use crate::document::document_of;
use crate::document::DocumentView;
use crate::document::utf8_error_text;
use crate::error::ConcurrencyError;
use crate::error::ErrorView;
use crate::error::IoError;
use crate::rule::Rule;
use crate::service::linter::first_failure;
use crate::service::linter::Linter;
use crate::service::linter::outcome;
use crate::sorting::lemma_map_any_order;
use crate::sorting::lemma_sort_forgets_arrival;
use crate::sorting::views_of;
use crate::violation::views;
use crate::violation::Violation;
use crate::violation::ViolationView;

verus! {

/// How many batches may wait to be collected before the workers are held
/// back, unless the caller says otherwise.
pub const DEFAULT_CAPACITY: usize = 100;

/// `findings` as diagnostics.
pub open spec fn as_diagnostics(findings: Seq<ViolationView>) -> Seq<DiagnosticView> {
    findings.map_values(|finding: ViolationView| DiagnosticView::Violation(finding))
}

/// Turns findings into diagnostics.
pub fn into_diagnostics(violations: Vec<Violation>) -> (batch: Vec<Diagnostic>)
    ensures
        views_of(batch@) == as_diagnostics(views(violations@)),
{
    let ghost items = violations@;
    let count = violations.len();
    let mut rest = reversed(violations);
    let mut batch: Vec<Diagnostic> = Vec::new();
    let mut done: usize = 0;
    proof {
        assert(items.skip(0) =~= items);
        assert(views_of(batch@) =~= as_diagnostics(views(items.take(0))));
    }
    while rest.len() > 0
        invariant
            items.len() == count,
            done + rest.len() == count,
            rest@ == items.skip(done as int).reverse(),
            views_of(batch@) == as_diagnostics(views(items.take(done as int))),
        decreases rest.len(),
    {
        let ghost prior = rest@;
        let ghost before = views_of(batch@);
        let violation = rest.pop().unwrap();
        proof {
            assert(prior.last() == items.skip(done as int)[0]);
            assert(rest@ =~= items.skip(done + 1).reverse());
        }
        batch.push(Diagnostic::Violation(violation));
        proof {
            let entered = DiagnosticView::Violation(items[done as int]@);
            assert(views_of(batch@) =~= before.push(entered));
            assert(items.take(done + 1) =~= items.take(done as int).push(items[done as int]));
            assert(as_diagnostics(views(items.take(done + 1))) =~= before.push(entered));
        }
        done = done + 1;
    }
    proof {
        assert(items.take(done as int) =~= items);
    }
    batch
}

/// What a check of the document `doc` with `rules` gives: the findings,
/// or the error of the first rule that fails and nothing else.
pub open spec fn batch_for(rules: Seq<Rule>, doc: DocumentView) -> Seq<DiagnosticView> {
    match outcome(rules, doc) {
        Some(findings) => as_diagnostics(findings),
        None => seq![DiagnosticView::LintError(first_failure(rules, doc))],
    }
}

/// What a check of the text `text` of `path` with `rules` gives.
pub open spec fn batch_of(rules: Seq<Rule>, path: Seq<char>, text: Seq<char>) -> Seq<
    DiagnosticView,
> {
    batch_for(rules, document_of(path, text))
}

/// What reading a file gave: its bytes, or the reason why it could not be
/// read.
pub open spec fn content_view(content: Result<Vec<u8>, String>) -> Result<Seq<u8>, Seq<char>> {
    match content {
        Ok(bytes) => Ok(bytes@),
        Err(message) => Err(message@),
    }
}

/// The one error of reading that a file gives which could not be read.
pub open spec fn unreadable(path: Seq<char>, message: Seq<char>) -> Seq<DiagnosticView> {
    seq![DiagnosticView::IoError(ErrorView { path, message })]
}

/// What the file `path` gives of which reading gave `content`: an error of
/// reading where it could not be read or is not UTF-8, and what the check
/// of its text gives otherwise.
pub open spec fn batch_of_file(
    rules: Seq<Rule>,
    path: Seq<char>,
    content: Result<Seq<u8>, Seq<char>>,
) -> Seq<DiagnosticView> {
    match content {
        Ok(bytes) => if valid_utf8(bytes) {
            batch_of(rules, path, decode_utf8(bytes))
        } else {
            unreadable(path, utf8_error_text(bytes))
        },
        Err(message) => unreadable(path, message),
    }
}

/// Checks `doc` with `linter`.
pub fn lint_document(linter: &Linter, doc: &Document) -> (batch: Vec<Diagnostic>)
    ensures
        views_of(batch@) == batch_for(linter@, doc@),
{
    match linter.check(doc) {
        Ok(violations) => into_diagnostics(violations),
        Err(error) => {
            let batch = vec![Diagnostic::LintError(error)];
            proof {
                assert(views_of(batch@) =~= seq![batch@[0]@]);
            }
            batch
        },
    }
}

/// Checks the text `text` of `path` with `linter`.
pub fn lint_text(linter: &Linter, path: String, text: String) -> (batch: Vec<Diagnostic>)
    ensures
        views_of(batch@) == batch_of(linter@, path@, text@),
{
    let doc = Document::new(path, text);
    lint_document(linter, &doc)
}

/// What a worker does with one file: `content` is what reading it gave,
/// its bytes or the reason why it could not be read.
///
/// A file that could not be read, or that is not UTF-8, gives one error of
/// reading; it is never passed over in silence. Every other file gives what
/// the check of its text gives.
pub fn visit(linter: &Linter, path: String, content: Result<Vec<u8>, String>) -> (batch: Vec<
    Diagnostic,
>)
    ensures
        views_of(batch@) == batch_of_file(linter@, path@, content_view(content)),
{
    match content {
        Ok(bytes) => match Document::from_bytes(path, bytes) {
            Ok(doc) => lint_document(linter, &doc),
            Err(error) => {
                let batch = vec![Diagnostic::IoError(error)];
                proof {
                    assert(views_of(batch@) =~= seq![batch@[0]@]);
                }
                batch
            },
        },
        Err(message) => {
            let batch = vec![Diagnostic::IoError(IoError::new(path, message))];
            proof {
                assert(views_of(batch@) =~= seq![batch@[0]@]);
            }
            batch
        },
    }
}

/// The batches in the order in which they arrived, joined into one list.
pub open spec fn joined<V>(batches: Seq<Seq<V>>) -> Seq<V>
    decreases batches.len(),
{
    if batches.len() == 0 {
        Seq::empty()
    } else {
        joined(batches.drop_last()) + batches.last()
    }
}

/// The contents of a list of batches.
pub open spec fn batch_views(batches: Seq<Vec<Diagnostic>>) -> Seq<Seq<DiagnosticView>> {
    batches.map_values(|batch: Vec<Diagnostic>| views_of(batch@))
}

/// Joins the batches into one list, in the order in which they arrived.
pub fn collect(batches: Vec<Vec<Diagnostic>>) -> (all: Vec<Diagnostic>)
    ensures
        views_of(all@) == joined(batch_views(batches@)),
{
    let ghost items = batches@;
    let ghost arrived = batch_views(batches@);
    let count = batches.len();
    let mut rest = reversed(batches);
    let mut all: Vec<Diagnostic> = Vec::new();
    let mut done: usize = 0;
    proof {
        assert(items.skip(0) =~= items);
        assert(views_of(all@) =~= joined(arrived.take(0)));
    }
    while rest.len() > 0
        invariant
            items.len() == count,
            arrived == batch_views(items),
            done + rest.len() == count,
            rest@ == items.skip(done as int).reverse(),
            views_of(all@) == joined(arrived.take(done as int)),
        decreases rest.len(),
    {
        let ghost prior = rest@;
        let ghost before = views_of(all@);
        let mut batch = rest.pop().unwrap();
        proof {
            assert(prior.last() == items.skip(done as int)[0]);
            assert(rest@ =~= items.skip(done + 1).reverse());
            assert(views_of(batch@) == arrived[done as int]);
            assert(arrived.take(done + 1).drop_last() =~= arrived.take(done as int));
        }
        let ghost added = views_of(batch@);
        all.append(&mut batch);
        proof {
            assert(views_of(all@) =~= before + added);
        }
        done = done + 1;
    }
    proof {
        assert(arrived.take(done as int) =~= arrived);
    }
    all
}

/// What a run comes to once the collecting thread has been joined: what it
/// collected, or, where it could not be joined, a fatal error and nothing
/// else.
pub fn conclude(joined: Result<Vec<Diagnostic>, String>) -> (result: Result<
    Vec<Diagnostic>,
    ConcurrencyError,
>)
    ensures
        match joined {
            Ok(collected) => result == Ok::<Vec<Diagnostic>, ConcurrencyError>(collected),
            Err(message) => result matches Err(error) && error@ == message@,
        },
{
    match joined {
        Ok(collected) => Ok(collected),
        Err(message) => Err(ConcurrencyError::new(message)),
    }
}

/// Taking one batch out of the arrivals takes its items out of what they join to.
pub proof fn lemma_joined_without<V>(batches: Seq<Seq<V>>, j: int)
    requires
        0 <= j < batches.len(),
    ensures
        joined(batches).to_multiset() == joined(batches.remove(j)).to_multiset().add(
            batches[j].to_multiset(),
        ),
    decreases batches.len(),
{
    broadcast use vstd::seq_lib::group_to_multiset_ensures;

    let last = batches.len() - 1;
    vstd::seq_lib::lemma_multiset_commutative(joined(batches.drop_last()), batches.last());
    if j == last {
        assert(batches.remove(j) =~= batches.drop_last());
    } else {
        lemma_joined_without(batches.drop_last(), j);
        let without = batches.remove(j);
        assert(without.drop_last() =~= batches.drop_last().remove(j));
        assert(without.last() == batches.last());
        vstd::seq_lib::lemma_multiset_commutative(joined(without.drop_last()), without.last());
        assert(joined(batches).to_multiset() =~= joined(without).to_multiset().add(
            batches[j].to_multiset(),
        ));
    }
}

/// Batches that arrive in another order join to the same items.
pub proof fn lemma_joined_any_order<V>(first: Seq<Seq<V>>, second: Seq<Seq<V>>)
    requires
        first.to_multiset() == second.to_multiset(),
    ensures
        joined(first).to_multiset() == joined(second).to_multiset(),
    decreases first.len(),
{
    broadcast use vstd::seq_lib::group_to_multiset_ensures;

    vstd::seq_lib::to_multiset_len(first);
    vstd::seq_lib::to_multiset_len(second);
    if first.len() == 0 {
        assert(second.len() == 0);
    } else {
        let batch = first.last();
        assert(first.to_multiset().count(batch) > 0) by {
            assert(first.contains(batch)) by {
                assert(first[first.len() - 1] == batch);
            }
        }
        assert(second.to_multiset().count(batch) > 0);
        assert(second.contains(batch));
        let j = choose|j: int| 0 <= j < second.len() && second[j] == batch;
        assert(first.drop_last() =~= first.remove(first.len() - 1));
        assert(first.drop_last().to_multiset() =~= first.to_multiset().remove(batch));
        assert(second.remove(j).to_multiset() =~= second.to_multiset().remove(batch));
        lemma_joined_any_order(first.drop_last(), second.remove(j));
        lemma_joined_without(second, j);
        vstd::seq_lib::lemma_multiset_commutative(joined(first.drop_last()), batch);
    }
}

/// However the workers are scheduled, a run reports the same: batches that
/// arrive in another order are sorted into the same list.
pub proof fn lemma_arrival_order_is_forgotten<V>(
    first: Seq<Seq<V>>,
    second: Seq<Seq<V>>,
    leq: spec_fn(V, V) -> bool,
)
    requires
        total_ordering(leq),
        first.to_multiset() == second.to_multiset(),
    ensures
        joined(first).sort_by(leq) == joined(second).sort_by(leq),
{
    lemma_joined_any_order(first, second);
    lemma_sort_forgets_arrival(joined(first), joined(second), leq);
}

/// A file of a run: its path, and what reading it gave.
pub struct FileView {
    pub path: Seq<char>,
    pub content: Result<Seq<u8>, Seq<char>>,
}

/// What each of `files` gives in a run with `rules`, file by file.
pub open spec fn run_batches(rules: Seq<Rule>, files: Seq<FileView>) -> Seq<Seq<DiagnosticView>> {
    files.map_values(|file: FileView| batch_of_file(rules, file.path, file.content))
}

/// What a run with `rules` over `files` reports, once sorted: what the
/// files give, joined in whatever order they were visited.
pub open spec fn run_report(rules: Seq<Rule>, files: Seq<FileView>) -> Seq<DiagnosticView> {
    joined(run_batches(rules, files)).sort_by(diagnostic_leq())
}

/// Two runs over the same files report the same, in whatever order the
/// workers visit the files and whenever their batches arrive.
pub proof fn lemma_run_forgets_schedule(
    rules: Seq<Rule>,
    first: Seq<FileView>,
    second: Seq<FileView>,
)
    requires
        first.to_multiset() == second.to_multiset(),
    ensures
        run_report(rules, first) == run_report(rules, second),
{
    lemma_map_any_order(
        first,
        second,
        |file: FileView| batch_of_file(rules, file.path, file.content),
    );
    lemma_diagnostic_leq_total();
    lemma_arrival_order_is_forgotten(
        run_batches(rules, first),
        run_batches(rules, second),
        diagnostic_leq(),
    );
}

/// What the batches join to holds every item of every batch.
pub proof fn lemma_joined_holds_every_batch<V>(batches: Seq<Seq<V>>, j: int, k: int)
    requires
        0 <= j < batches.len(),
        0 <= k < batches[j].len(),
    ensures
        joined(batches).contains(batches[j][k]),
    decreases batches.len(),
{
    let before = joined(batches.drop_last());
    if j == batches.len() - 1 {
        assert(joined(batches)[before.len() + k] == batches[j][k]);
    } else {
        lemma_joined_holds_every_batch(batches.drop_last(), j, k);
        let at = choose|at: int| 0 <= at < before.len() && before[at] == batches[j][k];
        assert(joined(batches)[at] == batches[j][k]);
    }
}

/// A run holds what every file gives: a file that could not be read, or is
/// not UTF-8, is reported with an error of reading that names it, and
/// every diagnostic of every other file is reported beside it.
pub proof fn lemma_run_reports_every_file(rules: Seq<Rule>, files: Seq<FileView>, i: int)
    requires
        0 <= i < files.len(),
    ensures
        forall|k: int|
            0 <= k < batch_of_file(rules, files[i].path, files[i].content).len() ==> run_report(
                rules,
                files,
            ).contains(#[trigger] batch_of_file(rules, files[i].path, files[i].content)[k]),
        files[i].content matches Err(message) ==> run_report(rules, files).contains(
            DiagnosticView::IoError(ErrorView { path: files[i].path, message }),
        ),
        files[i].content matches Ok(bytes) ==> !valid_utf8(bytes) ==> run_report(
            rules,
            files,
        ).contains(
            DiagnosticView::IoError(
                ErrorView { path: files[i].path, message: utf8_error_text(bytes) },
            ),
        ),
        run_report(rules, files).len() >= batch_of_file(
            rules,
            files[i].path,
            files[i].content,
        ).len(),
{
    broadcast use vstd::seq_lib::group_to_multiset_ensures;

    let batches = run_batches(rules, files);
    let all = joined(batches);
    let batch = batch_of_file(rules, files[i].path, files[i].content);
    assert(batches[i] == batch);
    lemma_diagnostic_leq_total();
    all.lemma_sort_by_ensures(diagnostic_leq());
    assert forall|k: int| 0 <= k < batch.len() implies run_report(rules, files).contains(
        #[trigger] batch[k],
    ) by {
        lemma_joined_holds_every_batch(batches, i, k);
        assert(all.to_multiset().count(batch[k]) > 0);
        assert(run_report(rules, files).to_multiset().count(batch[k]) > 0);
    }
    match files[i].content {
        Ok(bytes) => {
            if !valid_utf8(bytes) {
                assert(batch[0] == DiagnosticView::IoError(
                    ErrorView { path: files[i].path, message: utf8_error_text(bytes) },
                ));
            }
        },
        Err(message) => {
            assert(batch[0] == DiagnosticView::IoError(
                ErrorView { path: files[i].path, message },
            ));
        },
    }
    lemma_joined_at_least(batches, i);
    vstd::seq_lib::to_multiset_len(all);
    vstd::seq_lib::to_multiset_len(run_report(rules, files));
}

/// What the batches join to is no shorter than any of them.
pub proof fn lemma_joined_at_least<V>(batches: Seq<Seq<V>>, j: int)
    requires
        0 <= j < batches.len(),
    ensures
        joined(batches).len() >= batches[j].len(),
    decreases batches.len(),
{
    if j < batches.len() - 1 {
        lemma_joined_at_least(batches.drop_last(), j);
    }
}

} // verus!
