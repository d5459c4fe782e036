# packet_gen

Reads a JavaScript bundle generated by protobuf-es and describes the protobuf
messages and enums in it: for every class named by the bundle's packet tables
(objects keyed `CPacket...` / `SPacket...`), and for the message classes their
fields refer to, its type name, protobuf syntax and fields; and every enum
registered with `setEnumType`. Dependencies are followed further only from a
message whose class is bound to a variable named like its type name (with `.`
turned into `_`): the fields of a message such as `game.Vec3`, bound to
`Vec3`, are read, but the classes they refer to are not visited. The extraction fails in one case only: where a chain of
aliases that it follows (`var A = B; var B = A;`) runs in a circle.

- `src/` is the library, written in Verus. The source text is parsed by
  `oxc_parser` and lowered into the library's own syntax tree
  (`src/js_parse.rs`, trusted); all of the extraction is verified against
  specifications stated over that tree (`src/bundle.rs` ties it together).
- `app/` holds the WebAssembly bindings (`parse_bundle`, returning JSON and
  printing the parser's diagnostics as warnings) and
  the serializable copies of the library's types.
- `tests/` exercises the library on small bundles and hand-built trees.
