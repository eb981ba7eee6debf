//! Life cycle of an SPDK application.
use vstd::prelude::*;
use crate::error::numbered;
use crate::text::decimal;

verus! {

/// Errors of running an application.
#[derive(Debug)]
pub enum Error {
    NoStartCbDefined,
    ParseArgv(i32),
    Start(i32),
}

impl Error {
    /// The text that tells a user of the error.
    pub open spec fn text(&self) -> Seq<char> {
        match self {
            Error::NoStartCbDefined => "No start callback (.on_start()) defined"@,
            Error::ParseArgv(rc) => "Failed to parse arguments: "@ + decimal(*rc as int),
            Error::Start(rc) => "SPDK application start failed: "@ + decimal(*rc as int),
        }
    }

    /// Returns the text that tells a user of the error.
    pub fn message(&self) -> (text: String)
        ensures
            text@ == self.text(),
    {
        match self {
            Error::NoStartCbDefined => "No start callback (.on_start()) defined".to_owned(),
            Error::ParseArgv(rc) => numbered("Failed to parse arguments: ", *rc),
            Error::Start(rc) => numbered("SPDK application start failed: ", *rc),
        }
    }
}

/// An SPDK application: its name and what to do when it starts and when it shuts down. `C` is
/// the type of the callbacks.
pub struct SpdkApp<C> {
    name: String,
    start_cb: Option<C>,
    shutdown_cb: Option<C>,
}

/// What an application is: its name and its callbacks.
pub struct SpdkAppView<C> {
    pub name: Seq<char>,
    pub start_cb: Option<C>,
    pub shutdown_cb: Option<C>,
}

/// How to start an application: SPDK calls `start` once it runs, and `shutdown`, if there is one,
/// before it stops.
pub struct AppStart<C> {
    pub start: C,
    pub shutdown: Option<C>,
}

/// What parsing the command line with result `rc` leads to: nothing to run where help was asked
/// for, an error where parsing failed or nothing was to be started, and else the start.
pub open spec fn app_start<C>(app: SpdkAppView<C>, rc: i32) -> Result<Option<AppStart<C>>, Error> {
    if rc == 0 {
        Ok(None)
    } else if rc != 1 {
        Err(Error::ParseArgv(rc))
    } else {
        match app.start_cb {
            Some(start) => Ok(Some(AppStart { start, shutdown: app.shutdown_cb })),
            None => Err(Error::NoStartCbDefined),
        }
    }
}

impl<C> View for SpdkApp<C> {
    type V = SpdkAppView<C>;

    closed spec fn view(&self) -> SpdkAppView<C> {
        SpdkAppView {
            name: self.name@,
            start_cb: self.start_cb,
            shutdown_cb: self.shutdown_cb,
        }
    }
}

impl<C> SpdkApp<C> {
    /// An application without callbacks. Its name must not hold a NUL character.
    pub fn new(name: &str) -> (app: SpdkApp<C>)
        requires
            !name@.contains('\0'),
        ensures
            app@ == (SpdkAppView::<C> { name: name@, start_cb: None, shutdown_cb: None }),
    {
        SpdkApp { name: name.to_owned(), start_cb: None, shutdown_cb: None }
    }

    /// Sets the callback of the start.
    pub fn on_start(&mut self, f: C)
        ensures
            final(self)@ == (SpdkAppView { start_cb: Some(f), ..old(self)@ }),
    {
        self.start_cb = Some(f);
    }

    /// Sets the callback of the shutdown.
    pub fn on_shutdown(&mut self, f: C)
        ensures
            final(self)@ == (SpdkAppView { shutdown_cb: Some(f), ..old(self)@ }),
    {
        self.shutdown_cb = Some(f);
    }

    /// Returns the name.
    pub fn name(&self) -> (name: &str)
        ensures
            name@ == self@.name,
    {
        self.name.as_str()
    }

    /// Decides how to go on once SPDK has parsed the command line with result `rc`.
    pub fn run(self, rc: i32) -> (res: Result<Option<AppStart<C>>, Error>)
        ensures
            res == app_start(self@, rc),
    {
        if rc == 0 {
            return Ok(None);
        }
        if rc != 1 {
            return Err(Error::ParseArgv(rc));
        }
        match self.start_cb {
            Some(start) => Ok(Some(AppStart { start, shutdown: self.shutdown_cb })),
            None => Err(Error::NoStartCbDefined),
        }
    }
}

/// The result of an application that SPDK ran with result `rc`.
pub fn app_result(rc: i32) -> (res: Result<(), Error>)
    ensures
        res == (if rc != 0 {
            Err(Error::Start(rc))
        } else {
            Ok(())
        }),
{
    if rc != 0 {
        return Err(Error::Start(rc));
    }
    Ok(())
}

} // verus!
