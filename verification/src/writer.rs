//! Line writers.
//!
//! [`Writer`] assembles exactly one output line and terminates it on
//! [`Writer::finish`] with the carriage-return line-feed pair the serial
//! convention mandates; the embedding system holds the line-exclusion token
//! around the assembled line so that complete lines reach the transport
//! atomically. [`WriterNoDrop`] assembles output without any terminator and
//! without participating in that exclusion: it is meant for last-resort paths
//! (panic handlers) where not blocking outranks interleaving safety, and its
//! output may therefore interleave with concurrent lines.

use vstd::prelude::*;

verus! {

/// A writer that assembles one line for the serial output.
pub struct Writer {
    line: String,
}

impl View for Writer {
    type V = Seq<char>;

    closed spec fn view(&self) -> Seq<char> {
        self.line@
    }
}

impl Writer {
    /// Obtain a writer for a fresh, empty line.
    pub fn get() -> (w: Writer)
        ensures
            w@ == Seq::<char>::empty(),
    {
        Writer { line: String::new() }
    }

    /// Obtain a writer for the specified module: the line opens with the
    /// bracketed module name.
    pub fn get_module(module: &str) -> (w: Writer)
        ensures
            w@ == "["@ + module@ + "] "@,
    {
        let mut line = String::from_str("[");
        line.append(module);
        line.append("] ");
        Writer { line }
    }

    /// Append to the line under assembly.
    pub fn write_str(&mut self, s: &str)
        ensures
            final(self)@ == old(self)@ + s@,
    {
        self.line.append(s);
    }

    /// End the line: the serial convention mandates a carriage return and a
    /// line feed. The caller hands the finished line to the transport.
    pub fn finish(self) -> (line: String)
        ensures
            line@ == self@ + "\r\n"@,
    {
        let mut line = self.line;
        line.append("\r\n");
        line
    }
}

/// A writer that does not take part in line exclusion and appends no
/// terminator: output for paths that must never block.
pub struct WriterNoDrop {
    line: String,
}

impl View for WriterNoDrop {
    type V = Seq<char>;

    closed spec fn view(&self) -> Seq<char> {
        self.line@
    }
}

impl WriterNoDrop {
    /// Obtain a best-effort writer.
    pub fn get() -> (w: WriterNoDrop)
        ensures
            w@ == Seq::<char>::empty(),
    {
        WriterNoDrop { line: String::new() }
    }

    /// Append to the output under assembly.
    pub fn write_str(&mut self, s: &str)
        ensures
            final(self)@ == old(self)@ + s@,
    {
        self.line.append(s);
    }

    /// Hand the assembled output to the transport, unterminated.
    pub fn into_line(self) -> (line: String)
        ensures
            line@ == self@,
    {
        self.line
    }
}

} // verus!
