//! The format registry and the dispatch of one technique to the backends
//! of the requested formats.

use crate::command::{CommandResult, CommandResultView};
use crate::error::{ConversionError, Fault, GenerationError, GenerationErrorView};
use crate::format::Format;
use crate::generator::{view_outcome, Generator};
use crate::ir::IrTechnique;
use crate::technique::{view_source, Technique, TechniqueView};
use vstd::prelude::*;

verus! {

/// What is asked of each backend in one dispatch.
pub struct Request {
    pub model: TechniqueView,
    pub source: Seq<char>,
    pub destination: Option<Seq<char>>,
    pub embed_metadata: bool,
}

/// A set of backends, of which at most one answers for each format.
pub trait BackendSet {
    /// Whether a backend of the set answers for the format.
    spec fn covers(&self, format: Format) -> bool;

    /// What the backend that answers for the format returns on the request.
    spec fn output(&self, format: Format, request: Request) -> Result<
        Seq<CommandResultView>,
        GenerationErrorView,
    >;

    /// Whether a backend of the set answers for the format.
    fn has(&self, format: Format) -> (r: bool)
        ensures
            r == self.covers(format),
    ;

    /// Has the backend that answers for the format render the model, once.
    /// Nothing is returned where no backend answers for it.
    fn generate(
        &self,
        format: Format,
        model: &Technique,
        source: &str,
        destination: Option<&str>,
        embed_metadata: bool,
    ) -> (r: Option<Result<Vec<CommandResult>, GenerationError>>)
        ensures
            r is Some <==> self.covers(format),
            r matches Some(outcome) ==> view_outcome(outcome) == self.output(
                format,
                Request {
                    model: model@,
                    source: source@,
                    destination: view_source(destination),
                    embed_metadata,
                },
            ),
    ;
}

/// The set without a backend.
pub struct NoBackends;

impl BackendSet for NoBackends {
    open spec fn covers(&self, format: Format) -> bool {
        false
    }

    open spec fn output(&self, format: Format, request: Request) -> Result<
        Seq<CommandResultView>,
        GenerationErrorView,
    > {
        Err(GenerationErrorView { format, source: request.source, fault: Fault::NoBackend })
    }

    fn has(&self, format: Format) -> (r: bool) {
        false
    }

    fn generate(
        &self,
        format: Format,
        model: &Technique,
        source: &str,
        destination: Option<&str>,
        embed_metadata: bool,
    ) -> (r: Option<Result<Vec<CommandResult>, GenerationError>>) {
        None
    }
}

/// A set with one backend more. The backend answers for its format in
/// place of any backend of `rest` that produces the same.
pub struct WithBackend<G: Generator, S: BackendSet> {
    pub backend: G,
    pub rest: S,
}

impl<G: Generator, S: BackendSet> BackendSet for WithBackend<G, S> {
    open spec fn covers(&self, format: Format) -> bool {
        self.backend.produces() == format || self.rest.covers(format)
    }

    open spec fn output(&self, format: Format, request: Request) -> Result<
        Seq<CommandResultView>,
        GenerationErrorView,
    > {
        if self.backend.produces() == format {
            self.backend.output(
                request.model,
                request.source,
                request.destination,
                request.embed_metadata,
            )
        } else {
            self.rest.output(format, request)
        }
    }

    fn has(&self, format: Format) -> (r: bool) {
        self.backend.format() == format || self.rest.has(format)
    }

    fn generate(
        &self,
        format: Format,
        model: &Technique,
        source: &str,
        destination: Option<&str>,
        embed_metadata: bool,
    ) -> (r: Option<Result<Vec<CommandResult>, GenerationError>>) {
        if self.backend.format() == format {
            Some(self.backend.generate(model, source, destination, embed_metadata))
        } else {
            self.rest.generate(format, model, source, destination, embed_metadata)
        }
    }
}

/// What a dispatch hands back: the results of the backends that succeeded
/// and the errors of those that failed, each in the order of the request.
#[derive(Debug, PartialEq, Eq)]
pub struct Report {
    pub results: Vec<CommandResult>,
    pub errors: Vec<GenerationError>,
}

/// The mathematical model of a [`Report`].
pub struct ReportView {
    pub results: Seq<CommandResultView>,
    pub errors: Seq<GenerationErrorView>,
}

impl View for Report {
    type V = ReportView;

    open spec fn view(&self) -> ReportView {
        ReportView {
            results: self.results@.map_values(|r: CommandResult| r@),
            errors: self.errors@.map_values(|e: GenerationError| e@),
        }
    }
}

/// The format registry: the backends of a process, by format.
pub struct Registry<S: BackendSet> {
    pub backends: S,
}

impl Registry<NoBackends> {
    /// A registry without a backend.
    pub fn new() -> (r: Registry<NoBackends>)
        ensures
            forall|format: Format| !r.registered(format),
    {
        Registry { backends: NoBackends }
    }
}

impl<S: BackendSet> Registry<S> {
    /// Whether a backend is registered for the format.
    pub open spec fn registered(self, format: Format) -> bool {
        self.backends.covers(format)
    }

    /// What the request yields for one format: what the backend of the
    /// format returns, or, where none is registered, an error that says so.
    pub open spec fn outcome(self, format: Format, request: Request) -> Result<
        Seq<CommandResultView>,
        GenerationErrorView,
    > {
        if self.backends.covers(format) {
            self.backends.output(format, request)
        } else {
            Err(GenerationErrorView { format, source: request.source, fault: Fault::NoBackend })
        }
    }

    /// The report after the first `n` of the requested formats. A format
    /// that was requested earlier in the list is passed over; of each other,
    /// the results are added to the results, or the error to the errors.
    pub open spec fn dispatch_within(
        self,
        formats: Seq<Format>,
        n: int,
        request: Request,
    ) -> ReportView
        decreases n,
    {
        if n <= 0 {
            ReportView { results: Seq::empty(), errors: Seq::empty() }
        } else {
            let before = self.dispatch_within(formats, n - 1, request);
            if formats.take(n - 1).contains(formats[n - 1]) {
                before
            } else {
                match self.outcome(formats[n - 1], request) {
                    Ok(results) => ReportView {
                        results: before.results + results,
                        errors: before.errors,
                    },
                    Err(e) => ReportView { results: before.results, errors: before.errors.push(e) },
                }
            }
        }
    }

    /// The report of the whole request.
    pub open spec fn dispatch(self, formats: Seq<Format>, request: Request) -> ReportView {
        self.dispatch_within(formats, formats.len() as int, request)
    }

    /// The registry with the backend registered for its format, in place of
    /// the backend that was registered for it before, if one was.
    pub fn register<G: Generator>(self, backend: G) -> (r: Registry<WithBackend<G, S>>)
        ensures
            r.backends.backend == backend,
            r.backends.rest == self.backends,
    {
        Registry { backends: WithBackend { backend, rest: self.backends } }
    }

    /// Whether a backend is registered for the format.
    pub fn has(&self, format: Format) -> (r: bool)
        ensures
            r == self.registered(format),
    {
        self.backends.has(format)
    }

    /// Has the backend of one format render the model.
    pub fn generate(
        &self,
        format: Format,
        model: &Technique,
        source: &str,
        destination: Option<&str>,
        embed_metadata: bool,
    ) -> (r: Result<Vec<CommandResult>, GenerationError>)
        ensures
            view_outcome(r) == self.outcome(
                format,
                Request {
                    model: model@,
                    source: source@,
                    destination: view_source(destination),
                    embed_metadata,
                },
            ),
    {
        match self.backends.generate(format, model, source, destination, embed_metadata) {
            Some(outcome) => outcome,
            None => Err(GenerationError::new(format, source, Fault::NoBackend)),
        }
    }

    /// Has the backend of each requested format render the model, in the
    /// order of the request and each backend once. A backend that fails
    /// stops no other: the report holds the results of all that succeeded and
    /// the errors of all that failed.
    pub fn generate_all(
        &self,
        model: &Technique,
        source: &str,
        destination: Option<&str>,
        embed_metadata: bool,
        formats: &[Format],
    ) -> (report: Report)
        ensures
            report@ == self.dispatch(
                formats@,
                Request {
                    model: model@,
                    source: source@,
                    destination: view_source(destination),
                    embed_metadata,
                },
            ),
    {
        let ghost request = Request {
            model: model@,
            source: source@,
            destination: view_source(destination),
            embed_metadata,
        };
        let mut results: Vec<CommandResult> = Vec::new();
        let mut errors: Vec<GenerationError> = Vec::new();
        let mut n: usize = 0;
        while n < formats.len()
            invariant
                n <= formats@.len(),
                request == (Request {
                    model: model@,
                    source: source@,
                    destination: view_source(destination),
                    embed_metadata,
                }),
                results@.map_values(|r: CommandResult| r@) == self.dispatch_within(
                    formats@,
                    n as int,
                    request,
                ).results,
                errors@.map_values(|e: GenerationError| e@) == self.dispatch_within(
                    formats@,
                    n as int,
                    request,
                ).errors,
            decreases formats@.len() - n,
        {
            let format = formats[n];
            let mut repeated = false;
            let mut j: usize = 0;
            while j < n
                invariant
                    j <= n,
                    n < formats@.len(),
                    format == formats@[n as int],
                    repeated == formats@.take(j as int).contains(format),
                decreases n - j,
            {
                if formats[j] == format {
                    repeated = true;
                }
                proof {
                    let next = formats@.take(j as int + 1);
                    assert(next.drop_last() =~= formats@.take(j as int));
                    assert(next.last() == formats@[j as int]);
                    if formats@.take(j as int).contains(format) {
                        let k = choose|k: int|
                            0 <= k < formats@.take(j as int).len() && formats@.take(j as int)[k]
                                == format;
                        assert(next[k] == format);
                    }
                    if next.contains(format) && formats@[j as int] != format {
                        let k = choose|k: int| 0 <= k < next.len() && next[k] == format;
                        assert(formats@.take(j as int)[k] == format);
                    }
                    if formats@[j as int] == format {
                        assert(next[j as int] == format);
                    }
                }
                j += 1;
            }
            if !repeated {
                let ghost before_results = results@;
                let ghost before_errors = errors@;
                match self.generate(format, model, source, destination, embed_metadata) {
                    Ok(produced) => {
                        let mut produced = produced;
                        let ghost added = produced@;
                        results.append(&mut produced);
                        assert(results@.map_values(|r: CommandResult| r@)
                            =~= before_results.map_values(|r: CommandResult| r@)
                            + added.map_values(|r: CommandResult| r@));
                    },
                    Err(e) => {
                        errors.push(e);
                        assert(errors@.map_values(|e: GenerationError| e@)
                            =~= before_errors.map_values(|e: GenerationError| e@).push(e@));
                    },
                }
            }
            n += 1;
        }
        Report { results, errors }
    }

    /// Builds the model of one technique, once, and dispatches it to the
    /// backends of the requested formats. Where no model can be built, no
    /// backend runs.
    pub fn compile(
        &self,
        ir: &IrTechnique,
        source: &str,
        destination: Option<&str>,
        embed_metadata: bool,
        formats: &[Format],
    ) -> (r: Result<Report, ConversionError>)
        ensures
            match ir@.build() {
                Ok(model) => r is Ok && r->Ok_0@ == self.dispatch(
                    formats@,
                    Request {
                        model,
                        source: source@,
                        destination: view_source(destination),
                        embed_metadata,
                    },
                ),
                Err(e) => r is Err && r->Err_0 == e,
            },
    {
        match Technique::from_ir(ir) {
            Ok(model) => Ok(
                self.generate_all(&model, source, destination, embed_metadata, formats),
            ),
            Err(e) => Err(e),
        }
    }
}

/// Looking at more of the request only adds to the report: what the first
/// `m` formats put there stays, in its place.
pub proof fn lemma_dispatch_grows<S: BackendSet>(
    registry: Registry<S>,
    formats: Seq<Format>,
    m: int,
    n: int,
    request: Request,
)
    requires
        0 <= m <= n,
    ensures
        registry.dispatch_within(formats, m, request).results.is_prefix_of(
            registry.dispatch_within(formats, n, request).results,
        ),
        registry.dispatch_within(formats, m, request).errors.is_prefix_of(
            registry.dispatch_within(formats, n, request).errors,
        ),
    decreases n - m,
{
    if m < n {
        lemma_dispatch_grows(registry, formats, m, n - 1, request);
    }
}

/// No backend's failure keeps another's results out of the report, and no
/// failure goes unreported: for each requested format, whatever the others
/// returned, the report holds every result that its backend returned, or the
/// error with which it failed.
pub proof fn lemma_dispatch_isolated<S: BackendSet>(
    registry: Registry<S>,
    formats: Seq<Format>,
    request: Request,
    i: int,
)
    requires
        0 <= i < formats.len(),
    ensures
        match registry.outcome(formats[i], request) {
            Ok(results) => forall|k: int|
                0 <= k < results.len() ==> registry.dispatch(formats, request).results.contains(
                    #[trigger] results[k],
                ),
            Err(e) => registry.dispatch(formats, request).errors.contains(e),
        },
    decreases i,
{
    let report = registry.dispatch(formats, request);
    if formats.take(i).contains(formats[i]) {
        let j = choose|j: int| 0 <= j < formats.take(i).len() && formats.take(i)[j] == formats[i];
        assert(formats[j] == formats[i]);
        lemma_dispatch_isolated(registry, formats, request, j);
    } else {
        let before = registry.dispatch_within(formats, i, request);
        let after = registry.dispatch_within(formats, i + 1, request);
        lemma_dispatch_grows(registry, formats, i + 1, formats.len() as int, request);
        match registry.outcome(formats[i], request) {
            Ok(results) => {
                assert forall|k: int| 0 <= k < results.len() implies report.results.contains(
                    #[trigger] results[k],
                ) by {
                    assert(after.results[before.results.len() + k] == results[k]);
                    assert(report.results[before.results.len() + k] == results[k]);
                }
            },
            Err(e) => {
                assert(after.errors[before.errors.len() as int] == e);
                assert(report.errors[before.errors.len() as int] == e);
            },
        }
    }
}

/// The report holds nothing else: each of its results was returned by the
/// backend of a requested format, and each of its errors is the failure of
/// one.
pub proof fn lemma_dispatch_exact<S: BackendSet>(
    registry: Registry<S>,
    formats: Seq<Format>,
    n: int,
    request: Request,
)
    requires
        0 <= n <= formats.len(),
    ensures
        forall|r: CommandResultView| #[trigger]
            registry.dispatch_within(formats, n, request).results.contains(r) ==> exists|i: int|
                0 <= i < n && (#[trigger] registry.outcome(formats[i], request)) is Ok
                    && registry.outcome(formats[i], request)->Ok_0.contains(r),
        forall|e: GenerationErrorView| #[trigger]
            registry.dispatch_within(formats, n, request).errors.contains(e) ==> exists|i: int|
                0 <= i < n && (#[trigger] registry.outcome(formats[i], request)) == Err::<
                    Seq<CommandResultView>,
                    GenerationErrorView,
                >(e),
    decreases n,
{
    if n > 0 {
        lemma_dispatch_exact(registry, formats, n - 1, request);
        let before = registry.dispatch_within(formats, n - 1, request);
        let after = registry.dispatch_within(formats, n, request);
        let outcome = registry.outcome(formats[n - 1], request);
        assert forall|r: CommandResultView| #[trigger] after.results.contains(r) implies exists|
            i: int,
        |
            0 <= i < n && (#[trigger] registry.outcome(formats[i], request)) is Ok
                && registry.outcome(formats[i], request)->Ok_0.contains(r) by {
            let p = choose|p: int| 0 <= p < after.results.len() && after.results[p] == r;
            if p < before.results.len() {
                assert(before.results[p] == r);
                assert(before.results.contains(r));
            } else {
                assert(outcome->Ok_0[p - before.results.len()] == r);
                assert(registry.outcome(formats[n - 1], request)->Ok_0.contains(r));
            }
        }
        assert forall|e: GenerationErrorView| #[trigger] after.errors.contains(e) implies exists|
            i: int,
        |
            0 <= i < n && (#[trigger] registry.outcome(formats[i], request)) == Err::<
                Seq<CommandResultView>,
                GenerationErrorView,
            >(e) by {
            let p = choose|p: int| 0 <= p < after.errors.len() && after.errors[p] == e;
            if p < before.errors.len() {
                assert(before.errors[p] == e);
                assert(before.errors.contains(e));
            } else {
                assert(registry.outcome(formats[n - 1], request) == Err::<
                    Seq<CommandResultView>,
                    GenerationErrorView,
                >(e));
            }
        }
    }
}

} // verus!
