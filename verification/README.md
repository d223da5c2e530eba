# thumbnail_cacher

The thumbnail cache that the programs of a freedesktop.org desktop share: where the thumbnail of a
file stands, when it still shows the file as it is, how it is made, and how it follows the file when
that is moved, copied or deleted.

The library under `src/` does no I/O. It is given what was read (the contents of cache files, what
the file system says of a file, the entries of a walk) and answers with what is to be done: an entry
to publish, files to remove, or the next step of a longer run. Verus checks all of it.

| module       | what it is about                                                     |
|--------------|----------------------------------------------------------------------|
| `path`       | paths as plain values                                                |
| `text`       | decimal and hexadecimal text, percent encoding of square brackets    |
| `size`       | the size buckets                                                     |
| `uri`        | the URI of a file, and the name of its entries                       |
| `layout`     | where entries and fail markers stand                                 |
| `png_file`   | reading and writing PNG files                                        |
| `frame`      | scaling an image                                                     |
| `metadata`   | what an entry records of its file, and when the record still holds   |
| `cacher`     | looking up and making the entries of one file                        |
| `removal`    | removing the entries of a file                                       |
| `relocation` | copying and moving the entries of a file                             |
| `walk`       | what a renamed or deleted directory means for the cache              |

`app/` puts the library to work on a real file system.
