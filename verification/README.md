# ignition_column

Reading and writing columns of Parquet files in the Ignition encoding. The data pages of such a
column come with their own decoder, which stands in front of them.

The library under `src/` is verified with Verus. It has no I/O: the writer hands out bytes, and the
reader says which page it needs and what is to be done with it. `app/` connects both to files, page
readers, codecs and the engine that runs decoders.

## Writing

| module | what it holds |
| --- | --- |
| `writer` | the column writer: decoder page, data pages, metadata of the finished chunk |
| `layout` | where the parts of a data page stand in the file |
| `levels`, `level_decoding` | definition and repetition levels as runs, and reading them back |
| `format`, `compact` | page headers and the bytes that they are written as |
| `metrics`, `metadata`, `statistics` | what is collected of the pages and recorded of the chunk |
| `truncate`, `value_order`, `byte_order`, `data_type` | bounds: shortening and ordering them |
| `bloom_filter`, `properties`, `schema`, `page`, `sink`, `compression` | what the writer works on |
| `chunk` | what holds of a chunk once all of its pages are written |

## Reading

| module | what it holds |
| --- | --- |
| `reader` | the column reader |
| `selection` | how a batch comes about from what is read and what is skipped |
| `page_source` | the pages of a column, row group after row group |
| `types`, `arrays`, `deep_clone`, `buffer` | Arrow types and arrays and byte buffers, as far as the library needs them |

Public proof functions state what holds of several operations together. Functions marked
`external_body` call the Arrow, Thrift and `bytes` crates, and one of them, which decodes text, the
standard library; their contracts are trusted.
