//! Pipeline orchestration after the fetch join point: for each target's
//! fetch outcome, in submission order, run extraction, filtering and
//! record building, then hand each non-empty batch to the sinks. Each
//! target is processed in isolation: its failure never touches a
//! sibling's batch.

use vstd::prelude::*;

use crate::config::{UrlSelectorPair, UrlSelectorPairV};
use crate::db::{
    base_rows, db_clean, db_rows, db_tables, is_table_ident, rows_of_records,
    save_selector_records_to_db, RowV,
};
use crate::errors::ScrapeError;
use crate::extract::{css_texts, extract_selector_records, filtered_records_spec, selector_ok};
use crate::flatfile::{dec_digits, enc_batch, records_to_csv, u64_to_string};
use crate::record::{SelectorRecord, SelectorRecordV};

verus! {

/// What one target's fetch produced: the whole response body as text, or
/// the failure's description.
#[derive(Debug)]
pub struct FetchOutcome {
    pub target: UrlSelectorPair,
    pub body: Result<String, String>,
}

/// The mathematical view of a fetch outcome.
#[verifier::ext_equal]
pub struct FetchOutcomeV {
    pub target: UrlSelectorPairV,
    pub body: Result<Seq<char>, Seq<char>>,
}

impl View for FetchOutcome {
    type V = FetchOutcomeV;

    open spec fn view(&self) -> FetchOutcomeV {
        FetchOutcomeV {
            target: self.target@,
            body: match self.body {
                Ok(b) => Ok(b@),
                Err(e) => Err(e@),
            },
        }
    }
}

impl DeepView for FetchOutcome {
    type V = FetchOutcomeV;

    open spec fn deep_view(&self) -> FetchOutcomeV {
        self.view()
    }
}

/// One flat file waiting to be written: its name and its full text.
#[derive(Debug)]
pub struct CsvFile {
    pub name: String,
    pub content: String,
}

#[verifier::ext_equal]
pub struct CsvFileV {
    pub name: Seq<char>,
    pub content: Seq<char>,
}

impl View for CsvFile {
    type V = CsvFileV;

    open spec fn view(&self) -> CsvFileV {
        CsvFileV { name: self.name@, content: self.content@ }
    }
}

impl DeepView for CsvFile {
    type V = CsvFileV;

    open spec fn deep_view(&self) -> CsvFileV {
        self.view()
    }
}

/// How one target ended: its fetch failed; its selector did not compile;
/// its batch was empty after filtering; its batch was handled by the
/// configured sinks; or its persistence failed and was rolled back.
#[derive(Debug, Clone, Copy, PartialEq, Eq, Structural)]
pub enum TargetStatus {
    FetchFailed,
    SelectorInvalid,
    EmptyBatch,
    Handled,
    PersistFailed,
}

/// One target's result: its status, its batch of records, and the flat
/// file produced for the batch, if one was.
#[derive(Debug)]
pub struct RunTargetReport {
    pub status: TargetStatus,
    pub records: Vec<SelectorRecord>,
    pub csv: Option<CsvFile>,
}

#[verifier::ext_equal]
pub struct RunTargetReportV {
    pub status: TargetStatus,
    pub records: Seq<SelectorRecordV>,
    pub csv: Option<CsvFileV>,
}

impl View for RunTargetReport {
    type V = RunTargetReportV;

    open spec fn view(&self) -> RunTargetReportV {
        RunTargetReportV {
            status: self.status,
            records: self.records.deep_view(),
            csv: self.csv.deep_view(),
        }
    }
}

impl DeepView for RunTargetReport {
    type V = RunTargetReportV;

    open spec fn deep_view(&self) -> RunTargetReportV {
        self.view()
    }
}

/// The flat-file name for one batch: a fixed prefix, the request
/// identifier, and the fixed extension.
pub open spec fn csv_file_name(req_id: Seq<char>) -> Seq<char> {
    "selector_items_"@ + req_id + ".csv"@
}

/// The request identifier of one (run, target-index) pair: the run's
/// shared timestamp and the target's position.
pub open spec fn req_id_spec(run_ts: u64, i: int) -> Seq<char> {
    dec_digits(run_ts as nat) + "_"@ + dec_digits(i as nat)
}

/// The rows that the handled batches of a report list put into the
/// table, in target order.
pub open spec fn persisted_rows(reports: Seq<RunTargetReportV>) -> Seq<RowV>
    decreases reports.len(),
{
    if reports.len() == 0 {
        Seq::<RowV>::empty()
    } else {
        persisted_rows(reports.drop_last()) + (if reports.last().status
            == TargetStatus::Handled {
            rows_of_records(reports.last().records)
        } else {
            Seq::<RowV>::empty()
        })
    }
}

/// How a run changes the relational store: only the one target table
/// gains rows, exactly the handled batches in target order; every other
/// table is untouched; and the connection is left clean.
pub open spec fn db_aggregate(
    c0: rusqlite::Connection,
    c1: rusqlite::Connection,
    table: Seq<char>,
    added: Seq<RowV>,
) -> bool {
    &&& db_clean(c1)
    &&& forall|t: Seq<char>|
        t != table ==> #[trigger] db_tables(c1).contains(t) == db_tables(c0).contains(t)
    &&& forall|t: Seq<char>| t != table ==> #[trigger] db_rows(c1, t) == db_rows(c0, t)
    &&& db_tables(c0).contains(table) ==> db_tables(c1).contains(table) && db_rows(c1, table)
        == db_rows(c0, table) + added
    &&& !db_tables(c0).contains(table) ==> ((db_tables(c1).contains(table) ==> db_rows(c1, table)
        == added) && (!db_tables(c1).contains(table) ==> added.len() == 0))
}

/// What one target's report says, held against its fetch outcome: the
/// status names exactly what happened, the batch is the
/// extract-filter-build result for the fetched body, and the flat file
/// is the batch's serialization under the target's request identifier.
pub open spec fn report_matches(
    oc: FetchOutcomeV,
    rep: RunTargetReportV,
    save_to_csv: bool,
    run_ts: u64,
    i: int,
) -> bool {
    &&& (rep.status == TargetStatus::FetchFailed <==> oc.body is Err)
    &&& (rep.status == TargetStatus::FetchFailed ==> rep.records.len() == 0 && rep.csv is None)
    &&& (oc.body is Ok ==> ((rep.status == TargetStatus::SelectorInvalid) <==> !selector_ok(
        oc.target.selector,
    )))
    &&& (rep.status == TargetStatus::SelectorInvalid ==> rep.records.len() == 0
        && rep.csv is None)
    &&& ((oc.body is Ok && selector_ok(oc.target.selector)) ==> {
        &&& exists|ts: u64|
            rep.records == filtered_records_spec(
                css_texts(oc.body->Ok_0, oc.target.selector),
                oc.target.url,
                oc.target.selector,
                ts,
            )
        &&& (rep.status == TargetStatus::EmptyBatch <==> rep.records.len() == 0)
        &&& (rep.records.len() > 0 ==> (rep.status == TargetStatus::Handled || rep.status
            == TargetStatus::PersistFailed))
    })
    &&& (rep.status == TargetStatus::EmptyBatch ==> rep.csv is None)
    &&& ((rep.status == TargetStatus::Handled || rep.status == TargetStatus::PersistFailed)
        ==> (match rep.csv {
        Some(f) => save_to_csv && f.content == enc_batch(rep.records) && f.name == csv_file_name(
            req_id_spec(run_ts, i),
        ),
        None => !save_to_csv,
    }))
}

/// Hands one non-empty batch to the configured sinks: serializes it as
/// one flat file when asked, and appends it to the table in one
/// transaction when a connection stands. A failed batch write is rolled
/// back whole and reported; the flat file of the batch is produced
/// either way.
pub fn handle_records(
    records: &Vec<SelectorRecord>,
    conn: &mut Option<rusqlite::Connection>,
    table: &str,
    save_to_csv: bool,
    req_id: &str,
) -> (r: (Option<CsvFile>, Result<(), ScrapeError>))
    requires
        (*old(conn)) is Some ==> db_clean((*old(conn))->Some_0) && is_table_ident(table@),
    ensures
        (*final(conn)) is Some <==> (*old(conn)) is Some,
        (match r.0 {
            Some(f) => save_to_csv && f@.name == csv_file_name(req_id@) && f@.content
                == enc_batch(records.deep_view()),
            None => !save_to_csv,
        }),
        (*old(conn)) is None ==> r.1 is Ok,
        (*old(conn)) is Some ==> {
            let c0 = (*old(conn))->Some_0;
            let c1 = (*final(conn))->Some_0;
            &&& db_clean(c1)
            &&& forall|t: Seq<char>|
                t != table@ ==> #[trigger] db_tables(c1).contains(t) == db_tables(c0).contains(
                    t,
                )
            &&& forall|t: Seq<char>|
                t != table@ ==> #[trigger] db_rows(c1, t) == db_rows(c0, t)
            &&& match r.1 {
                Ok(()) => db_tables(c1).contains(table@) && db_rows(c1, table@) == base_rows(
                    c0,
                    table@,
                ) + rows_of_records(records.deep_view()),
                Err(e) => {
                    &&& e == ScrapeError::PersistenceFailure
                    &&& db_tables(c0).contains(table@) ==> db_tables(c1).contains(table@)
                        && db_rows(c1, table@) == db_rows(c0, table@)
                    &&& (!db_tables(c0).contains(table@) && db_tables(c1).contains(table@))
                        ==> db_rows(c1, table@) == Seq::<RowV>::empty()
                },
            }
        },
{
    let csv = if save_to_csv {
        let content = records_to_csv(records);
        let mut name = String::from_str("selector_items_");
        name.append(req_id);
        name.append(".csv");
        Some(CsvFile { name, content })
    } else {
        None
    };
    let dbres;
    match conn.take() {
        Some(mut c) => {
            dbres = save_selector_records_to_db(&mut c, table, records);
            *conn = Some(c);
        },
        None => {
            dbres = Ok(());
        },
    }
    (csv, dbres)
}

/// Composes the store's run-so-far change with one more target's sink
/// outcome.
proof fn lemma_aggregate_step(
    c0: rusqlite::Connection,
    cp: rusqlite::Connection,
    cn: rusqlite::Connection,
    table: Seq<char>,
    prs: Seq<RowV>,
    batch: Seq<RowV>,
    ok: bool,
)
    requires
        db_aggregate(c0, cp, table, prs),
        db_clean(cn),
        forall|t: Seq<char>|
            t != table ==> #[trigger] db_tables(cn).contains(t) == db_tables(cp).contains(t),
        forall|t: Seq<char>| t != table ==> #[trigger] db_rows(cn, t) == db_rows(cp, t),
        ok ==> db_tables(cn).contains(table) && db_rows(cn, table) == base_rows(cp, table)
            + batch,
        !ok ==> (db_tables(cp).contains(table) ==> db_tables(cn).contains(table) && db_rows(
            cn,
            table,
        ) == db_rows(cp, table)),
        !ok ==> ((!db_tables(cp).contains(table) && db_tables(cn).contains(table)) ==> db_rows(
            cn,
            table,
        ) == Seq::<RowV>::empty()),
    ensures
        db_aggregate(
            c0,
            cn,
            table,
            prs + (if ok {
                batch
            } else {
                Seq::<RowV>::empty()
            }),
        ),
{
    let added = prs + (if ok {
        batch
    } else {
        Seq::<RowV>::empty()
    });
    if !ok {
        assert(added =~= prs);
    }
    if db_tables(c0).contains(table) {
        assert(db_tables(cp).contains(table));
        assert(db_rows(cp, table) == db_rows(c0, table) + prs);
        if ok {
            assert(base_rows(cp, table) == db_rows(cp, table));
            assert((db_rows(c0, table) + prs) + batch =~= db_rows(c0, table) + (prs + batch));
        }
    } else {
        if ok {
            if db_tables(cp).contains(table) {
                assert(db_rows(cp, table) == prs);
                assert(base_rows(cp, table) == db_rows(cp, table));
            } else {
                assert(prs.len() == 0);
                assert(base_rows(cp, table) =~= Seq::<RowV>::empty());
                assert(base_rows(cp, table) + batch =~= prs + batch);
            }
        } else {
            if db_tables(cn).contains(table) {
                if db_tables(cp).contains(table) {
                    assert(db_rows(cn, table) == db_rows(cp, table));
                    assert(db_rows(cp, table) == prs);
                } else {
                    assert(db_rows(cn, table) =~= Seq::<RowV>::empty());
                    assert(prs.len() == 0);
                    assert(prs =~= Seq::<RowV>::empty());
                }
            } else {
                assert(!db_tables(cp).contains(table));
                assert(added.len() == 0);
            }
        }
    }
}

/// The post-join half of one run: walks the fetch outcomes in original
/// submission order; a failed fetch or selector is logged by the caller
/// and skipped; each successful fetch is extracted, filtered and built
/// into a batch; each non-empty batch goes to the sinks under a request
/// identifier unique to the (run, target-index) pair. One target's
/// failure never touches a sibling: the store gains exactly the handled
/// batches, in order.
#[verifier::loop_isolation(false)]
pub fn run(
    outcomes: &Vec<FetchOutcome>,
    conn: &mut Option<rusqlite::Connection>,
    table: &str,
    save_to_csv: bool,
    run_timestamp: u64,
) -> (reports: Vec<RunTargetReport>)
    requires
        (*old(conn)) is Some ==> db_clean((*old(conn))->Some_0) && is_table_ident(table@),
    ensures
        reports.deep_view().len() == outcomes.deep_view().len(),
        forall|i: int|
            0 <= i < outcomes.deep_view().len() ==> report_matches(
                outcomes.deep_view()[i],
                #[trigger] reports.deep_view()[i],
                save_to_csv,
                run_timestamp,
                i,
            ),
        (*final(conn)) is Some <==> (*old(conn)) is Some,
        (*old(conn)) is Some ==> db_aggregate(
            (*old(conn))->Some_0,
            (*final(conn))->Some_0,
            table@,
            persisted_rows(reports.deep_view()),
        ),
        (*old(conn)) is None ==> forall|i: int|
            0 <= i < reports.deep_view().len() ==> (#[trigger] reports.deep_view()[i]).status
                != TargetStatus::PersistFailed,
{
    let mut reports: Vec<RunTargetReport> = Vec::new();
    let n = outcomes.len();
    let mut i: usize = 0;
    proof {
        assert(reports.deep_view() =~= Seq::<RunTargetReportV>::empty());
        if (*conn) is Some {
            let c0 = (*conn)->Some_0;
            assert(db_rows(c0, table@) + Seq::<RowV>::empty() =~= db_rows(c0, table@));
        }
    }
    while i < n
        invariant
            0 <= i <= n,
            n == outcomes@.len(),
            outcomes.deep_view().len() == n,
            reports.deep_view().len() == i,
            forall|j: int|
                0 <= j < i ==> report_matches(
                    outcomes.deep_view()[j],
                    #[trigger] reports.deep_view()[j],
                    save_to_csv,
                    run_timestamp,
                    j,
                ),
            (*conn) is Some <==> (*old(conn)) is Some,
            (*old(conn)) is Some ==> db_aggregate(
                (*old(conn))->Some_0,
                (*conn)->Some_0,
                table@,
                persisted_rows(reports.deep_view()),
            ),
            (*old(conn)) is None ==> forall|j: int|
                0 <= j < i ==> (#[trigger] reports.deep_view()[j]).status
                    != TargetStatus::PersistFailed,
        decreases n - i,
    {
        let oc = &outcomes[i];
        let ghost cpre = *conn;
        let ghost rs0 = reports.deep_view();
        let ghost ocv = outcomes.deep_view()[i as int];
        proof {
            assert(ocv == outcomes@[i as int]@);
        }
        let report = match &oc.body {
            Err(_) => {
                let empty_records: Vec<SelectorRecord> = Vec::new();
                proof {
                    assert(empty_records.deep_view().len() == 0);
                    assert(ocv.body is Err);
                }
                RunTargetReport { status: TargetStatus::FetchFailed, records: empty_records, csv: None }
            },
            Ok(content) => {
                proof {
                    assert(ocv.body is Ok && ocv.body->Ok_0 == content@);
                    assert(ocv.target.url == oc.target.url@);
                    assert(ocv.target.selector == oc.target.selector@);
                }
                match extract_selector_records(
                    content.as_str(),
                    oc.target.url.as_str(),
                    oc.target.selector.as_str(),
                ) {
                    Err(_) => {
                        let empty_records: Vec<SelectorRecord> = Vec::new();
                        proof {
                            assert(empty_records.deep_view().len() == 0);
                        }
                        RunTargetReport {
                            status: TargetStatus::SelectorInvalid,
                            records: empty_records,
                            csv: None,
                        }
                    },
                    Ok(records) => {
                        proof {
                            assert(exists|ts: u64|
                                records.deep_view() == filtered_records_spec(
                                    css_texts(ocv.body->Ok_0, ocv.target.selector),
                                    ocv.target.url,
                                    ocv.target.selector,
                                    ts,
                                ));
                        }
                        if records.len() == 0 {
                            RunTargetReport { status: TargetStatus::EmptyBatch, records, csv: None }
                        } else {
                            let mut req_id = u64_to_string(run_timestamp);
                            req_id.append("_");
                            let idx = u64_to_string(i as u64);
                            req_id.append(idx.as_str());
                            proof {
                                assert(req_id@ =~= req_id_spec(run_timestamp, i as int));
                            }
                            let (csv, dbres) = handle_records(
                                &records,
                                conn,
                                table,
                                save_to_csv,
                                req_id.as_str(),
                            );
                            match dbres {
                                Ok(()) => RunTargetReport {
                                    status: TargetStatus::Handled,
                                    records,
                                    csv,
                                },
                                Err(_) => RunTargetReport {
                                    status: TargetStatus::PersistFailed,
                                    records,
                                    csv,
                                },
                            }
                        }
                    },
                }
            },
        };
        proof {
            assert(report_matches(ocv, report@, save_to_csv, run_timestamp, i as int));
            let rs = reports.deep_view();
            assert(rs.push(report@).drop_last() =~= rs);
            assert(rs.push(report@).last() == report@);
            let step = if report@.status == TargetStatus::Handled {
                rows_of_records(report@.records)
            } else {
                Seq::<RowV>::empty()
            };
            assert(persisted_rows(rs.push(report@)) == persisted_rows(rs) + step);
            if (*old(conn)) is Some {
                let c0 = (*old(conn))->Some_0;
                let cp = cpre->Some_0;
                let cn = (*conn)->Some_0;
                if report@.status == TargetStatus::Handled || report@.status
                    == TargetStatus::PersistFailed {
                    lemma_aggregate_step(
                        c0,
                        cp,
                        cn,
                        table@,
                        persisted_rows(rs),
                        rows_of_records(report@.records),
                        report@.status == TargetStatus::Handled,
                    );
                } else {
                    assert(cn == cp);
                    assert(persisted_rows(rs) + step =~= persisted_rows(rs));
                }
            }
        }
        reports.push(report);
        proof {
            assert(reports.deep_view() =~= rs0.push(reports@[i as int]@));
        }
        i = i + 1;
    }
    reports
}

proof fn lemma_persisted_rows_holds_batch(reports: Seq<RunTargetReportV>, k: int)
    requires
        0 <= k < reports.len(),
        reports[k].status == TargetStatus::Handled,
    ensures
        exists|off: int|
            0 <= off && off + rows_of_records(reports[k].records).len() <= persisted_rows(
                reports,
            ).len() && #[trigger] persisted_rows(reports).subrange(
                off,
                off + rows_of_records(reports[k].records).len() as int,
            ) == rows_of_records(reports[k].records),
    decreases reports.len(),
{
    let batch = rows_of_records(reports[k].records);
    let whole = persisted_rows(reports);
    if k == reports.len() - 1 {
        let off = persisted_rows(reports.drop_last()).len() as int;
        assert(reports.last() == reports[k]);
        assert(whole == persisted_rows(reports.drop_last()) + batch);
        assert(whole.subrange(off, off + batch.len() as int) =~= batch);
        assert(0 <= off && off + batch.len() <= whole.len() && whole.subrange(
            off,
            off + batch.len() as int,
        ) == batch);
    } else {
        assert(reports.drop_last()[k] == reports[k]);
        lemma_persisted_rows_holds_batch(reports.drop_last(), k);
        let prefix = persisted_rows(reports.drop_last());
        let off = choose|off: int|
            0 <= off && off + rows_of_records(reports.drop_last()[k].records).len()
                <= prefix.len() && #[trigger] prefix.subrange(
                off,
                off + rows_of_records(reports.drop_last()[k].records).len() as int,
            ) == rows_of_records(reports.drop_last()[k].records);
        assert(whole == prefix + (if reports.last().status == TargetStatus::Handled {
            rows_of_records(reports.last().records)
        } else {
            Seq::<RowV>::empty()
        }));
        assert(whole.subrange(off, off + batch.len() as int) =~= prefix.subrange(
            off,
            off + batch.len() as int,
        ));
        assert(0 <= off && off + batch.len() <= whole.len() && whole.subrange(
            off,
            off + batch.len() as int,
        ) == batch);
    }
}

/// Law: targets are isolated. In any run whose store gained exactly the
/// handled batches (as `run` ensures), every target reported handled has
/// its whole batch standing contiguously among the stored rows —
/// whatever became of its siblings, a failed fetch among them.
pub proof fn lemma_failure_isolation(
    reports: Seq<RunTargetReportV>,
    base: Seq<RowV>,
    stored: Seq<RowV>,
    k: int,
)
    requires
        stored == base + persisted_rows(reports),
        0 <= k < reports.len(),
        reports[k].status == TargetStatus::Handled,
    ensures
        exists|off: int|
            0 <= off && off + rows_of_records(reports[k].records).len() <= stored.len()
                && #[trigger] stored.subrange(
                off,
                off + rows_of_records(reports[k].records).len() as int,
            ) == rows_of_records(reports[k].records),
{
    let batch = rows_of_records(reports[k].records);
    lemma_persisted_rows_holds_batch(reports, k);
    let inner = persisted_rows(reports);
    let off0 = choose|off: int|
        0 <= off && off + rows_of_records(reports[k].records).len() <= inner.len()
            && #[trigger] inner.subrange(
            off,
            off + rows_of_records(reports[k].records).len() as int,
        ) == rows_of_records(reports[k].records);
    let off = base.len() as int + off0;
    assert(stored.subrange(off, off + batch.len() as int) =~= inner.subrange(
        off0,
        off0 + batch.len() as int,
    ));
    assert(0 <= off && off + batch.len() <= stored.len() && stored.subrange(
        off,
        off + batch.len() as int,
    ) == batch);
}

} // verus!
