# audio_fetch

Audio files that are played while they are downloaded: which bytes of a file are there,
which are to be requested next, when a reader has to wait, and what it is handed.

The library in `src/` holds these decisions and is verified with Verus. It does no I/O: a
call returns the commands to send to the loader of a file and the step to take next.

- `range_set`: sets of byte positions, kept as sorted ranges
- `content_range`: the size of a file, out of the fields of a response
- `shared`: what the reader, the controllers and the loader of a file share
- `streaming`: reading a file while it is downloaded
- `controller`: steering the loader of a file
- `opening`: opening a file that is to be streamed
- `audio_file`: a file that is cached or streamed
- `laws`: what holds across calls

`app/` carries the decisions out: it requests, locks, waits and reads. It also turns times
and bitrates into amounts of data, which is floating point.
